//! Pixel-format classification: bit depth, color quads, and the tagged
//! union of the four recognized encodings.
use crate::bytes::le32;
use crate::header::{spec_header, HeaderView, BI_BITFIELDS, BI_JPEG, BI_PNG, BI_RGB, HEADER_SIZE};
use vstd::prelude::*;

verus! {

/// Declared bits per pixel, as an enumerated value. `Other` keeps any
/// unrecognized count so that the mapping loses nothing.
#[derive(Clone, Copy, Debug, PartialEq, Eq, Structural)]
pub enum BitsPPx {
    Binary,
    HalfByte,
    Byte,
    Short,
    Triplet,
    Word,
    Other(u16),
}

/// The canonical mapping from a declared bit count to [`BitsPPx`].
pub open spec fn spec_bits_ppx(n: u16) -> BitsPPx {
    if n == 1 {
        BitsPPx::Binary
    } else if n == 4 {
        BitsPPx::HalfByte
    } else if n == 8 {
        BitsPPx::Byte
    } else if n == 16 {
        BitsPPx::Short
    } else if n == 24 {
        BitsPPx::Triplet
    } else if n == 32 {
        BitsPPx::Word
    } else {
        BitsPPx::Other(n)
    }
}

impl BitsPPx {
    /// The bit count a variant stands for.
    pub open spec fn value(self) -> u16 {
        match self {
            BitsPPx::Binary => 1,
            BitsPPx::HalfByte => 4,
            BitsPPx::Byte => 8,
            BitsPPx::Short => 16,
            BitsPPx::Triplet => 24,
            BitsPPx::Word => 32,
            BitsPPx::Other(n) => n,
        }
    }

    /// Maps a declared bit count to its variant.
    pub fn from(n: u16) -> (r: BitsPPx)
        ensures
            r == spec_bits_ppx(n),
    {
        match n {
            1 => BitsPPx::Binary,
            4 => BitsPPx::HalfByte,
            8 => BitsPPx::Byte,
            16 => BitsPPx::Short,
            24 => BitsPPx::Triplet,
            32 => BitsPPx::Word,
            _ => BitsPPx::Other(n),
        }
    }

    /// Returns the bit count the variant stands for.
    pub fn bits(&self) -> (r: u16)
        ensures
            r == self.value(),
    {
        match *self {
            BitsPPx::Binary => 1,
            BitsPPx::HalfByte => 4,
            BitsPPx::Byte => 8,
            BitsPPx::Short => 16,
            BitsPPx::Triplet => 24,
            BitsPPx::Word => 32,
            BitsPPx::Other(n) => n,
        }
    }
}

/// The bit-count mapping round-trips: the variant made from an integer
/// stands for that same integer.
pub proof fn lemma_bits_ppx_round_trip(n: u16)
    ensures
        spec_bits_ppx(n).value() == n,
{
}

/// A 4-byte color record in table storage order (blue, green, red,
/// reserved), used both as a palette entry and, reinterpreted, as a channel
/// mask descriptor.
#[derive(Clone, Copy, Debug, PartialEq, Eq, Structural)]
pub struct ColorQuad {
    pub blue: u8,
    pub green: u8,
    pub red: u8,
    pub reserved: u8,
}

/// The quad stored at offset `i` of `s`.
pub open spec fn quad_at(s: Seq<u8>, i: int) -> ColorQuad {
    ColorQuad { blue: s[i], green: s[i + 1], red: s[i + 2], reserved: s[i + 3] }
}

/// Byte `j` (0..4) of a quad in storage order.
pub open spec fn quad_byte(q: ColorQuad, j: int) -> u8 {
    if j == 0 {
        q.blue
    } else if j == 1 {
        q.green
    } else if j == 2 {
        q.red
    } else {
        q.reserved
    }
}

/// The serialized form of a quad.
pub open spec fn quad_bytes(q: ColorQuad) -> Seq<u8> {
    seq![q.blue, q.green, q.red, q.reserved]
}

/// A quad's stored bytes taken as one little-endian 32-bit integer: the
/// channel mask it describes.
pub open spec fn mask_of(q: ColorQuad) -> u32 {
    le32(q.blue, q.green, q.red, q.reserved)
}

impl ColorQuad {
    /// The channel mask this quad describes when its stored bytes are
    /// taken as one little-endian 32-bit integer.
    pub fn mask(&self) -> (r: u32)
        ensures
            r == mask_of(*self),
    {
        (self.blue as u32) | ((self.green as u32) << 8) | ((self.red as u32) << 16) | ((
        self.reserved as u32) << 24)
    }
}

/// The `n` quads stored back to back at offset `off` of `s`.
pub open spec fn table_at(s: Seq<u8>, off: int, n: int) -> Seq<ColorQuad> {
    Seq::new(n as nat, |i: int| quad_at(s, off + 4 * i))
}

/// The serialized form of a quad table: 4 bytes per entry, in order.
pub open spec fn table_bytes(t: Seq<ColorQuad>) -> Seq<u8> {
    Seq::new((4 * t.len()) as nat, |k: int| quad_byte(t[k / 4], k % 4))
}

/// Re-serializing a parsed quad table reproduces the bytes it was read
/// from.
pub proof fn lemma_table_round_trip(s: Seq<u8>, off: int, n: int)
    requires
        0 <= off,
        0 <= n,
        off + 4 * n <= s.len(),
    ensures
        table_bytes(table_at(s, off, n)) == s.subrange(off, off + 4 * n),
{
    let t = table_at(s, off, n);
    assert forall|k: int| 0 <= k < 4 * n implies table_bytes(t)[k] == s[off + k] by {
        assert(k == 4 * (k / 4) + k % 4);
        assert(0 <= k / 4 < n);
    }
    assert(table_bytes(t) =~= s.subrange(off, off + 4 * n));
}

/// The classified pixel encoding of a block: an opaque embedded stream, an
/// indexed (palette) raster, or a channel-mask raster, with the extracted
/// color table where one applies.
#[derive(Debug)]
pub enum DIBFmt {
    PNG,
    JPG,
    RGB(Vec<ColorQuad>, BitsPPx),
    Masked(Vec<ColorQuad>, BitsPPx),
}

/// The mathematical shape of a classified encoding.
pub enum FmtModel {
    PNG,
    JPG,
    RGB(Seq<ColorQuad>, BitsPPx),
    Masked(Seq<ColorQuad>, BitsPPx),
}

impl View for DIBFmt {
    type V = FmtModel;

    open spec fn view(&self) -> FmtModel {
        match *self {
            DIBFmt::PNG => FmtModel::PNG,
            DIBFmt::JPG => FmtModel::JPG,
            DIBFmt::RGB(t, d) => FmtModel::RGB(t@, d),
            DIBFmt::Masked(t, d) => FmtModel::Masked(t@, d),
        }
    }
}

/// The encoding a block's header declares, and the color table that goes
/// with it.
///
/// - An embedded PNG or JPEG stream is recognized by its compression tag
///   alone; no table is read, whatever `clr_used` declares.
/// - A plain raster at depth 1, 4 or 8 carries `clr_used` palette quads
///   right after the header.
/// - A channel-mask raster at depth 16 or 32 carries exactly three mask
///   quads right after the header.
/// - Every other combination is unrecognized: `None`, and the caller must
///   refuse to decode rather than guess.
pub open spec fn spec_classify(b: Seq<u8>) -> Option<FmtModel> {
    let h = spec_header(b);
    if h.compression == BI_PNG {
        Some(FmtModel::PNG)
    } else if h.compression == BI_JPEG {
        Some(FmtModel::JPG)
    } else if h.compression == BI_RGB && (h.bit_count == 1 || h.bit_count == 4 || h.bit_count
        == 8) {
        Some(
            FmtModel::RGB(
                table_at(b, HEADER_SIZE as int, h.clr_used as int),
                spec_bits_ppx(h.bit_count),
            ),
        )
    } else if h.compression == BI_BITFIELDS && (h.bit_count == 16 || h.bit_count == 32) {
        Some(FmtModel::Masked(table_at(b, HEADER_SIZE as int, 3), spec_bits_ppx(h.bit_count)))
    } else {
        None
    }
}

/// The number of color-table quads that follow the header under a
/// classification: `clr_used` palette entries for an indexed raster, three
/// mask entries for a channel-mask raster, none otherwise.
pub open spec fn spec_table_len(c: Option<FmtModel>) -> int {
    match c {
        Some(FmtModel::RGB(t, _)) => t.len() as int,
        Some(FmtModel::Masked(t, _)) => t.len() as int,
        _ => 0,
    }
}

/// A recognized encoding and its bit-depth category are mutually
/// consistent: an indexed raster only ever carries depth 1, 4 or 8 and
/// `clr_used` palette entries; a channel-mask raster only ever carries
/// depth 16 or 32 and exactly three mask entries.
pub proof fn lemma_classify_depth_consistent(b: Seq<u8>)
    ensures
        match spec_classify(b) {
            Some(FmtModel::RGB(t, d)) => (d.value() == 1 || d.value() == 4 || d.value() == 8)
                && t.len() == spec_header(b).clr_used,
            Some(FmtModel::Masked(t, d)) => (d.value() == 16 || d.value() == 32) && t.len() == 3,
            _ => true,
        },
{
}

/// Copies the `count` quads stored right after the header region of
/// `block`.
fn read_table(block: &[u8], count: usize) -> (t: Vec<ColorQuad>)
    requires
        HEADER_SIZE + 4 * count <= block@.len(),
    ensures
        t@ == table_at(block@, HEADER_SIZE as int, count as int),
{
    let len = block.len();
    let mut t: Vec<ColorQuad> = Vec::new();
    let mut i: usize = 0;
    while i < count
        invariant
            i <= count,
            len == block@.len(),
            HEADER_SIZE + 4 * count <= block@.len(),
            t@ == table_at(block@, HEADER_SIZE as int, i as int),
        decreases count - i,
    {
        let off = HEADER_SIZE + 4 * i;
        let q = ColorQuad {
            blue: block[off],
            green: block[off + 1],
            red: block[off + 2],
            reserved: block[off + 3],
        };
        t.push(q);
        assert(t@ =~= table_at(block@, HEADER_SIZE as int, i + 1));
        i = i + 1;
    }
    t
}

impl DIBFmt {
    /// Classifies the encoding that `info` declares and copies the color
    /// table that follows the header in `block`. `info` must be the header
    /// parsed from `block`, and `block` must hold the table the
    /// classification calls for; the bitmap constructor checks that before
    /// calling.
    pub fn from(info: &HeaderView, block: &[u8]) -> (r: Option<DIBFmt>)
        requires
            block@.len() >= HEADER_SIZE,
            *info == spec_header(block@),
            info.compression == BI_RGB && (info.bit_count == 1 || info.bit_count == 4
                || info.bit_count == 8) ==> HEADER_SIZE + 4 * (info.clr_used as int)
                <= block@.len(),
            info.compression == BI_BITFIELDS && (info.bit_count == 16 || info.bit_count == 32)
                ==> HEADER_SIZE + 12 <= block@.len(),
        ensures
            match r {
                Some(f) => spec_classify(block@) == Some(f@),
                None => spec_classify(block@) is None,
            },
    {
        let bitc = info.bit_count;
        if info.compression == BI_PNG {
            Some(DIBFmt::PNG)
        } else if info.compression == BI_JPEG {
            Some(DIBFmt::JPG)
        } else if info.compression == BI_RGB && (bitc == 1 || bitc == 4 || bitc == 8) {
            let t = read_table(block, info.clr_used as usize);
            Some(DIBFmt::RGB(t, BitsPPx::from(bitc)))
        } else if info.compression == BI_BITFIELDS && (bitc == 16 || bitc == 32) {
            let t = read_table(block, 3);
            Some(DIBFmt::Masked(t, BitsPPx::from(bitc)))
        } else {
            None
        }
    }
}

} // verus!
