//! The decoded bitmap: an owned copy of a DIB block's header, color table
//! and payload, the pixel reconstructor, and the container emitters.
use crate::bytes::{push_u16, push_u32, u16_at, u16_bytes, u32_at, u32_bytes};
use crate::fmt::{
    mask_of, spec_classify, spec_table_len, table_bytes, ColorQuad, DIBFmt, FmtModel,
};
use crate::png_enc::{png_encode_rgb, png_stream_of, PngError};
use crate::header::{
    header_bytes, spec_header, HeaderView, BI_BITFIELDS, BI_PNG, BI_RGB, HEADER_SIZE,
};
use vstd::prelude::*;
use vstd::slice::{slice_subrange, slice_to_vec};

verus! {

/// Byte length of the file-level header that a portable bitmap file
/// prepends to the info header.
pub const FILE_HEADER_SIZE: usize = 14;

/// The two-byte magic pair "BM" that opens a portable bitmap file, as a
/// little-endian 16-bit value.
pub const BMP_MAGIC: u16 = 0x4D42;

/// The file-level header of a portable bitmap file: magic, total file
/// size, and the byte offset from the start of the file to the pixel
/// payload.
#[derive(Clone, Copy, Debug, PartialEq, Eq, Structural)]
pub struct FileHeader {
    pub typ: u16,
    pub size: u32,
    pub reserved1: u16,
    pub reserved2: u16,
    pub off_bits: u32,
}

/// The serialized form of a file header: 14 bytes.
pub open spec fn file_header_bytes(fh: FileHeader) -> Seq<u8> {
    u16_bytes(fh.typ) + u32_bytes(fh.size) + u16_bytes(fh.reserved1) + u16_bytes(fh.reserved2)
        + u32_bytes(fh.off_bits)
}

/// The file header that belongs to a bitmap with the given info header and
/// `colorc` color-table entries: the payload sits after the two headers and
/// the table, and the file ends where the declared payload ends.
pub open spec fn spec_file_header(info: HeaderView, colorc: int) -> FileHeader {
    FileHeader {
        typ: BMP_MAGIC,
        size: (info.size_image + FILE_HEADER_SIZE + HEADER_SIZE + 4 * colorc) as u32,
        reserved1: 0,
        reserved2: 0,
        off_bits: (FILE_HEADER_SIZE + HEADER_SIZE + 4 * colorc) as u32,
    }
}

/// Why a bitmap could not be constructed from a block. Every variant is a
/// size inconsistency: the block ends before the region the header
/// declares, or the declared regions do not fit the container's 32-bit
/// size field.
#[derive(Clone, Copy, Debug, PartialEq, Eq, Structural)]
pub enum UnclipError {
    /// The block is shorter than the fixed info header.
    HeaderTruncated,
    /// The declared color table runs past the end of the block.
    TableTruncated,
    /// The declared pixel payload runs past the end of the block.
    PayloadTruncated,
    /// Headers, table and payload together exceed what the file header's
    /// 32-bit size field can state.
    Oversized,
}

/// The mathematical shape of a decoded bitmap.
pub struct BitmapModel {
    pub head: FileHeader,
    pub info: HeaderView,
    pub clrs: Option<Seq<ColorQuad>>,
    pub data: Seq<u8>,
}

/// A decoded bitmap: owned copies of the file header it will be written
/// under, the info header, the extracted color table (absent when the
/// encoding carries none or the table is empty), and the pixel payload.
/// Never mutated after construction.
#[derive(Debug)]
pub struct DIB {
    pub head: FileHeader,
    pub info: HeaderView,
    pub clrs: Option<Vec<ColorQuad>>,
    pub data: Vec<u8>,
}

impl View for DIB {
    type V = BitmapModel;

    open spec fn view(&self) -> BitmapModel {
        BitmapModel {
            head: self.head,
            info: self.info,
            clrs: match self.clrs {
                Some(t) => Some(t@),
                None => None,
            },
            data: self.data@,
        }
    }
}

/// The color table a bitmap keeps for a classification: the palette or the
/// mask triple, except that an empty table collapses to "no table".
pub open spec fn spec_table_of(c: Option<FmtModel>) -> Option<Seq<ColorQuad>> {
    match c {
        Some(FmtModel::RGB(t, _)) => if t.len() == 0 {
            None
        } else {
            Some(t)
        },
        Some(FmtModel::Masked(t, _)) => Some(t),
        _ => None,
    }
}

/// Construction of a decoded bitmap from a raw block, or the exact size
/// inconsistency that forbids it.
///
/// The block must hold the fixed header, then the color table the
/// classification calls for, then the declared payload; the copied payload
/// is exactly the declared `size_image` bytes after header and table. A
/// block whose declared regions run past its end is refused rather than
/// read out of bounds.
pub open spec fn spec_unclip(b: Seq<u8>) -> Result<BitmapModel, UnclipError> {
    if b.len() < HEADER_SIZE {
        Err(UnclipError::HeaderTruncated)
    } else {
        let h = spec_header(b);
        let c = spec_classify(b);
        let tablec = spec_table_len(c);
        if HEADER_SIZE + 4 * tablec > b.len() {
            Err(UnclipError::TableTruncated)
        } else if HEADER_SIZE + 4 * tablec + h.size_image > b.len() {
            Err(UnclipError::PayloadTruncated)
        } else if FILE_HEADER_SIZE + HEADER_SIZE + 4 * tablec + h.size_image > u32::MAX {
            Err(UnclipError::Oversized)
        } else {
            Ok(
                BitmapModel {
                    head: spec_file_header(h, tablec),
                    info: h,
                    clrs: spec_table_of(c),
                    data: b.subrange(
                        HEADER_SIZE + 4 * tablec,
                        HEADER_SIZE + 4 * tablec + h.size_image,
                    ),
                },
            )
        }
    }
}

/// Fixed channel masks of a plain 32-bit raster, mirroring the source
/// layout assumption: red in the top byte, then green, then blue.
pub const MASK_RED_32: u32 = 0xff000000;

/// See [`MASK_RED_32`].
pub const MASK_GREEN_32: u32 = 0x00ff0000;

/// See [`MASK_RED_32`].
pub const MASK_BLUE_32: u32 = 0x0000ff00;

/// One channel of a packed pixel: the mask selects the channel's bits and
/// the shift drops them into the low byte that is kept.
pub open spec fn chan(mask: u32, shift: u32, px: u32) -> u8 {
    ((mask & px) >> shift) as u8
}

/// Packed pixel `i` of `data`: four bytes little-endian when `wide`, else
/// two.
pub open spec fn px_at(data: Seq<u8>, wide: bool, i: int) -> u32 {
    if wide {
        u32_at(data, 4 * i)
    } else {
        u16_at(data, 2 * i) as u32
    }
}

/// The flat RGB bytes of `n` packed pixels under a mask-and-shift policy:
/// three bytes per pixel, in pixel order.
pub open spec fn masked_rgb(
    data: Seq<u8>,
    n: int,
    wide: bool,
    mr: u32,
    mg: u32,
    mb: u32,
    sr: u32,
    sg: u32,
    sb: u32,
) -> Seq<u8> {
    Seq::new(
        (3 * n) as nat,
        |k: int|
            {
                let px = px_at(data, wide, k / 3);
                if k % 3 == 0 {
                    chan(mr, sr, px)
                } else if k % 3 == 1 {
                    chan(mg, sg, px)
                } else {
                    chan(mb, sb, px)
                }
            },
    )
}

/// The reconstructed per-pixel RGB byte sequence of a bitmap, or `None`
/// when no buffer is producible.
///
/// - A channel-mask raster at depth 32 extracts each channel with its
///   declared mask and the fixed high-byte shifts 24/16/8; at depth 16 with
///   the compact-layout shifts 11/5/0 on the packed 16-bit pixel.
/// - A plain raster at depth 32 uses the fixed masks and shifts 24/16/8.
/// - A plain raster at depth 24 is already packed 3-byte pixels and passes
///   through unchanged.
/// - Anything else — including a mask raster with no or too few mask
///   entries, negative declared dimensions, or a payload shorter than the
///   declared pixel count needs — yields absence, never an out-of-bounds
///   read.
pub open spec fn spec_rgb(m: BitmapModel) -> Option<Seq<u8>> {
    let info = m.info;
    let n = info.width * info.height;
    if info.compression == BI_BITFIELDS && (info.bit_count == 32 || info.bit_count == 16) {
        match m.clrs {
            Some(t) => if t.len() >= 3 && info.width >= 0 && info.height >= 0 && (if info.bit_count
                == 32 {
                4 * n
            } else {
                2 * n
            }) <= m.data.len() {
                if info.bit_count == 32 {
                    Some(
                        masked_rgb(
                            m.data,
                            n,
                            true,
                            mask_of(t[0]),
                            mask_of(t[1]),
                            mask_of(t[2]),
                            24,
                            16,
                            8,
                        ),
                    )
                } else {
                    Some(
                        masked_rgb(
                            m.data,
                            n,
                            false,
                            mask_of(t[0]),
                            mask_of(t[1]),
                            mask_of(t[2]),
                            11,
                            5,
                            0,
                        ),
                    )
                }
            } else {
                None
            },
            None => None,
        }
    } else if info.compression == BI_RGB && info.bit_count == 32 {
        if info.width >= 0 && info.height >= 0 && 4 * n <= m.data.len() {
            Some(masked_rgb(m.data, n, true, MASK_RED_32, MASK_GREEN_32, MASK_BLUE_32, 24, 16, 8))
        } else {
            None
        }
    } else if info.compression == BI_RGB && info.bit_count == 24 {
        if info.width >= 0 && info.height >= 0 && 3 * n <= m.data.len() {
            Some(m.data.subrange(0, 3 * n))
        } else {
            None
        }
    } else {
        None
    }
}

/// Extracts `n` pixels from `data` under the given masks and shifts,
/// producing the flat RGB buffer that [`masked_rgb`] states.
fn masked_loop(
    data: &Vec<u8>,
    n: usize,
    wide: bool,
    mr: u32,
    mg: u32,
    mb: u32,
    sr: u32,
    sg: u32,
    sb: u32,
) -> (out: Vec<u8>)
    requires
        sr < 32,
        sg < 32,
        sb < 32,
        (if wide {
            4 * n
        } else {
            2 * n
        }) <= data@.len(),
    ensures
        out@ == masked_rgb(data@, n as int, wide, mr, mg, mb, sr, sg, sb),
{
    let len = data.len();
    let ghost total = masked_rgb(data@, n as int, wide, mr, mg, mb, sr, sg, sb);
    let mut out: Vec<u8> = Vec::new();
    let mut i: usize = 0;
    while i < n
        invariant
            i <= n,
            len == data@.len(),
            sr < 32,
            sg < 32,
            sb < 32,
            (if wide {
                4 * n
            } else {
                2 * n
            }) <= data@.len(),
            total == masked_rgb(data@, n as int, wide, mr, mg, mb, sr, sg, sb),
            out@ == total.subrange(0, 3 * (i as int)),
        decreases n - i,
    {
        let px: u32 = if wide {
            crate::bytes::read_u32(data.as_slice(), 4 * i)
        } else {
            crate::bytes::read_u16(data.as_slice(), 2 * i) as u32
        };
        out.push(#[verifier::truncate] (((mr & px) >> sr) as u8));
        out.push(#[verifier::truncate] (((mg & px) >> sg) as u8));
        out.push(#[verifier::truncate] (((mb & px) >> sb) as u8));
        proof {
            let ii = i as int;
            assert((3 * ii) / 3 == ii && (3 * ii) % 3 == 0 && (3 * ii + 1) / 3 == ii && (3 * ii + 1)
                % 3 == 1 && (3 * ii + 2) / 3 == ii && (3 * ii + 2) % 3 == 2) by (nonlinear_arith);
            assert(out@ =~= total.subrange(0, 3 * (ii + 1)));
        }
        i = i + 1;
    }
    assert(total.subrange(0, 3 * (n as int)) =~= total);
    out
}

/// The emitted portable bitmap file: file header, info header, color table
/// if any, then the payload, in order and nothing else.
pub open spec fn spec_bmp_bytes(m: BitmapModel) -> Seq<u8> {
    file_header_bytes(m.head) + header_bytes(m.info) + (match m.clrs {
        Some(t) => table_bytes(t),
        None => Seq::empty(),
    }) + m.data
}

impl DIB {
    /// The file header for an info header and a color-table entry count.
    fn file_header(info: &HeaderView, colorc: usize) -> (r: FileHeader)
        requires
            FILE_HEADER_SIZE + HEADER_SIZE + 4 * colorc + info.size_image <= u32::MAX,
        ensures
            r == spec_file_header(*info, colorc as int),
    {
        let offset: u32 = (FILE_HEADER_SIZE + HEADER_SIZE) as u32 + 4 * (colorc as u32);
        FileHeader {
            typ: BMP_MAGIC,
            size: info.size_image + offset,
            reserved1: 0,
            reserved2: 0,
            off_bits: offset,
        }
    }

    /// Builds an owned bitmap from a raw DIB block: parses the header,
    /// classifies the encoding, copies the color table and the declared
    /// payload, and computes the file header for later repackaging.
    ///
    /// Fails, without reading out of bounds, on every block whose declared
    /// table or payload runs past the block's end, and on one whose total
    /// repackaged size would not fit the container's 32-bit size field.
    pub fn unclip(block: &[u8]) -> (r: Result<DIB, UnclipError>)
        ensures
            match r {
                Ok(d) => spec_unclip(block@) == Ok::<BitmapModel, UnclipError>(d@),
                Err(e) => spec_unclip(block@) == Err::<BitmapModel, UnclipError>(e),
            },
    {
        let len = block.len();
        if len < HEADER_SIZE {
            return Err(UnclipError::HeaderTruncated);
        }
        let info = HeaderView::parse(block);
        let tablec: usize = if info.compression == BI_RGB && (info.bit_count == 1
            || info.bit_count == 4 || info.bit_count == 8) {
            info.clr_used as usize
        } else if info.compression == BI_BITFIELDS && (info.bit_count == 16 || info.bit_count
            == 32) {
            3
        } else {
            0
        };
        assert(tablec == spec_table_len(spec_classify(block@)));
        let need_table: u64 = HEADER_SIZE as u64 + 4 * (tablec as u64);
        if need_table > len as u64 {
            return Err(UnclipError::TableTruncated);
        }
        let need_total: u64 = need_table + info.size_image as u64;
        if need_total > len as u64 {
            return Err(UnclipError::PayloadTruncated);
        }
        if FILE_HEADER_SIZE as u64 + need_total > u32::MAX as u64 {
            return Err(UnclipError::Oversized);
        }
        let fmt = DIBFmt::from(&info, block);
        let clrs: Option<Vec<ColorQuad>> = match fmt {
            Some(DIBFmt::RGB(t, _)) => if t.len() == 0 {
                None
            } else {
                Some(t)
            },
            Some(DIBFmt::Masked(t, _)) => Some(t),
            _ => None,
        };
        let head = Self::file_header(&info, tablec);
        let off: usize = HEADER_SIZE + 4 * tablec;
        let data = slice_to_vec(slice_subrange(block, off, off + info.size_image as usize));
        Ok(DIB { head, info, clrs, data })
    }

    /// Reconstructs the normalized per-pixel RGB byte sequence, three
    /// bytes per pixel in source row order, or `None` when the encoding
    /// has no recognized reconstruction or the declared dimensions exceed
    /// the payload actually held.
    pub fn rgb_data(&self) -> (r: Option<Vec<u8>>)
        ensures
            match r {
                Some(v) => spec_rgb(self@) == Some(v@),
                None => spec_rgb(self@) is None,
            },
    {
        let info = &self.info;
        let dlen = self.data.len();
        if info.compression == BI_BITFIELDS && (info.bit_count == 32 || info.bit_count == 16) {
            let wide = info.bit_count == 32;
            match &self.clrs {
                Some(t) => {
                    if t.len() < 3 || info.width < 0 || info.height < 0 {
                        return None;
                    }
                    let w64: u64 = info.width as u64;
                    let h64: u64 = info.height as u64;
                    assert(w64 * h64 <= 0x7fffffff * 0x7fffffff) by (nonlinear_arith)
                        requires
                            w64 <= 0x7fffffff && h64 <= 0x7fffffff,
                    ;
                    let n64: u64 = w64 * h64;
                    let bpp: u64 = if wide {
                        4
                    } else {
                        2
                    };
                    if bpp * n64 > dlen as u64 {
                        return None;
                    }
                    let n: usize = n64 as usize;
                    let (mr, mg, mb) = (t[0].mask(), t[1].mask(), t[2].mask());
                    if wide {
                        Some(masked_loop(&self.data, n, true, mr, mg, mb, 24, 16, 8))
                    } else {
                        Some(masked_loop(&self.data, n, false, mr, mg, mb, 11, 5, 0))
                    }
                },
                None => None,
            }
        } else if info.compression == BI_RGB && info.bit_count == 32 {
            if info.width < 0 || info.height < 0 {
                return None;
            }
            let w64: u64 = info.width as u64;
            let h64: u64 = info.height as u64;
            assert(w64 * h64 <= 0x7fffffff * 0x7fffffff) by (nonlinear_arith)
                requires
                    w64 <= 0x7fffffff && h64 <= 0x7fffffff,
            ;
            let n64: u64 = w64 * h64;
            if 4 * n64 > dlen as u64 {
                return None;
            }
            let n: usize = n64 as usize;
            Some(masked_loop(&self.data, n, true, MASK_RED_32, MASK_GREEN_32, MASK_BLUE_32, 24, 16, 8))
        } else if info.compression == BI_RGB && info.bit_count == 24 {
            if info.width < 0 || info.height < 0 {
                return None;
            }
            let w64: u64 = info.width as u64;
            let h64: u64 = info.height as u64;
            assert(w64 * h64 <= 0x7fffffff * 0x7fffffff) by (nonlinear_arith)
                requires
                    w64 <= 0x7fffffff && h64 <= 0x7fffffff,
            ;
            let n64: u64 = w64 * h64;
            if 3 * n64 > dlen as u64 {
                return None;
            }
            let n: usize = n64 as usize;
            Some(slice_to_vec(slice_subrange(self.data.as_slice(), 0, 3 * n)))
        } else {
            None
        }
    }

    /// Serializes the bitmap as a complete portable bitmap file:
    /// file header, info header, color table if any, then the raw payload,
    /// byte for byte.
    pub fn encode_bmp(&self) -> (out: Vec<u8>)
        ensures
            out@ == spec_bmp_bytes(self@),
    {
        let mut out: Vec<u8> = Vec::new();
        push_u16(&mut out, self.head.typ);
        push_u32(&mut out, self.head.size);
        push_u16(&mut out, self.head.reserved1);
        push_u16(&mut out, self.head.reserved2);
        push_u32(&mut out, self.head.off_bits);
        assert(out@ =~= file_header_bytes(self.head));
        self.info.emit(&mut out);
        if let Some(t) = &self.clrs {
            let ghost prefix = out@;
            let mut i: usize = 0;
            while i < t.len()
                invariant
                    i <= t@.len(),
                    out@ == prefix + table_bytes(t@.subrange(0, i as int)),
                decreases t@.len() - i,
            {
                let q = t[i];
                out.push(q.blue);
                out.push(q.green);
                out.push(q.red);
                out.push(q.reserved);
                proof {
                    let a = table_bytes(t@.subrange(0, i as int));
                    let c = table_bytes(t@.subrange(0, i + 1));
                    assert forall|k: int| 0 <= k < c.len() implies c[k] == (a + seq![
                        q.blue,
                        q.green,
                        q.red,
                        q.reserved,
                    ])[k] by {
                        assert(k == 4 * (k / 4) + k % 4);
                    }
                    assert(c =~= a + seq![q.blue, q.green, q.red, q.reserved]);
                    assert(out@ =~= prefix + c);
                }
                i = i + 1;
            }
            assert(t@.subrange(0, t@.len() as int) =~= t@);
        }
        out.extend_from_slice(self.data.as_slice());
        assert(out@ =~= spec_bmp_bytes(self@));
        out
    }
}

impl DIB {
    /// Reconstructs the RGB pixel buffer and hands it, with the declared
    /// dimensions, to the external PNG encoder. Absent exactly when no
    /// pixel buffer is producible; succeeds on every reconstructable
    /// bitmap with positive dimensions, and the stream is then the
    /// encoder's output for these dimensions and pixels. An error is left
    /// only for a zero dimension, which the format itself forbids.
    pub fn encode_png(&self) -> (r: Option<Result<Vec<u8>, PngError>>)
        ensures
            (r is None) == (spec_rgb(self@) is None),
            spec_rgb(self@) is Some && self.info.width > 0 && self.info.height > 0 ==> (r matches Some(
                Ok(_),
            )),
            match r {
                Some(Ok(v)) => v@ == png_stream_of(
                    self.info.width as u32,
                    self.info.height as u32,
                    spec_rgb(self@).unwrap(),
                ),
                _ => true,
            },
    {
        match self.rgb_data() {
            None => None,
            Some(buf) => {
                assert(self.info.width >= 0 && self.info.height >= 0);
                assert(buf@.len() == 3 * (self.info.width * self.info.height));
                let w = self.info.width as u32;
                let h = self.info.height as u32;
                assert(w == self.info.width && h == self.info.height);
                assert(3 * (w * h) == 3 * w * h) by (nonlinear_arith);
                assert(buf@.len() == 3 * (w * h));
                match png_encode_rgb(w, h, &buf) {
                    Ok(v) => Some(Ok(v)),
                    Err(e) => Some(Err(e)),
                }
            },
        }
    }
}

/// Repackaging is lossless: whenever construction from a block succeeds,
/// the emitted portable bitmap file is the computed file header followed,
/// byte for byte, by the block's own header, color-table and payload
/// bytes.
pub proof fn lemma_repackage_lossless(b: Seq<u8>)
    requires
        spec_unclip(b) is Ok,
    ensures
        ({
            let m = spec_unclip(b)->Ok_0;
            let used = HEADER_SIZE + 4 * spec_table_len(spec_classify(b)) + spec_header(
                b,
            ).size_image;
            spec_bmp_bytes(m) == file_header_bytes(m.head) + b.subrange(0, used)
        }),
{
    let m = spec_unclip(b)->Ok_0;
    let c = spec_classify(b);
    let tablec = spec_table_len(c);
    let h = spec_header(b);
    let used = HEADER_SIZE + 4 * tablec + h.size_image;
    crate::header::lemma_header_round_trip(b);
    match m.clrs {
        Some(t) => {
            crate::fmt::lemma_table_round_trip(b, HEADER_SIZE as int, tablec);
            assert(table_bytes(t) == b.subrange(HEADER_SIZE as int, HEADER_SIZE + 4 * tablec));
        },
        None => {
            assert(tablec == 0);
        },
    }
    assert(spec_bmp_bytes(m) =~= file_header_bytes(m.head) + b.subrange(0, used));
}

/// An embedded PNG stream short-circuits classification: the encoding is
/// recognized from the compression tag alone, no color-table bytes are
/// read whatever `clr_used` declares, and a successfully constructed
/// bitmap carries no table and places the payload right after the two
/// headers.
pub proof fn lemma_embedded_png_short_circuit(b: Seq<u8>)
    requires
        b.len() >= HEADER_SIZE,
        spec_header(b).compression == BI_PNG,
    ensures
        spec_classify(b) == Some(FmtModel::PNG),
        spec_unclip(b) is Ok ==> {
            let m = spec_unclip(b)->Ok_0;
            m.clrs is None && m.head.off_bits == FILE_HEADER_SIZE + HEADER_SIZE
        },
{
}

/// A block whose declared regions — fixed header, color table, pixel
/// payload — together run past its actual end is refused, whatever else
/// it declares: construction fails cleanly instead of producing a bitmap
/// with garbage tail bytes. (That no byte outside the block is read at
/// all is part of `unclip`'s own verification: the successful case copies
/// only subranges that this bound keeps inside the block.)
pub proof fn lemma_truncated_block_fails(b: Seq<u8>)
    requires
        HEADER_SIZE + 4 * spec_table_len(spec_classify(b)) + spec_header(b).size_image > b.len(),
    ensures
        spec_unclip(b) is Err,
{
}

/// When no color-table entries follow the header — a plain raster at a
/// depth that carries no palette, or one declaring zero colors used — the
/// constructed bitmap keeps no table, and the emitted payload offset and
/// file size cover the two headers and the payload alone.
pub proof fn lemma_offset_excludes_table(b: Seq<u8>)
    requires
        spec_unclip(b) is Ok,
        spec_table_len(spec_classify(b)) == 0,
    ensures
        ({
            let m = spec_unclip(b)->Ok_0;
            m.clrs is None && m.head.off_bits == FILE_HEADER_SIZE + HEADER_SIZE && m.head.size
                == FILE_HEADER_SIZE + HEADER_SIZE + spec_header(b).size_image
        }),
{
}

/// A constructed bitmap keeps exact owned copies: its payload is sized to
/// the header's declared image size, its info header is the block's own,
/// and its file header is the one computed for that header and table.
pub proof fn lemma_unclip_shape(b: Seq<u8>)
    requires
        spec_unclip(b) is Ok,
    ensures
        ({
            let m = spec_unclip(b)->Ok_0;
            m.data.len() == m.info.size_image && m.info == spec_header(b) && m.head
                == spec_file_header(spec_header(b), spec_table_len(spec_classify(b))) && m.clrs
                == spec_table_of(spec_classify(b))
        }),
{
}

/// A zero-length palette collapses to "no color table": the encoding is
/// still recognized, but the bitmap keeps no table and the emitted payload
/// offset covers the two headers alone.
pub proof fn lemma_empty_table_collapses(b: Seq<u8>)
    requires
        spec_classify(b) matches Some(FmtModel::RGB(t, _)) && t.len() == 0,
    ensures
        spec_table_of(spec_classify(b)) is None,
        spec_unclip(b) is Ok ==> {
            let m = spec_unclip(b)->Ok_0;
            m.clrs is None && m.head.off_bits == FILE_HEADER_SIZE + HEADER_SIZE
        },
{
}

/// Decoding is deterministic: two constructions from the same block bytes
/// yield identical bitmaps (or the identical failure).
pub proof fn lemma_unclip_idempotent(
    b: Seq<u8>,
    r1: Result<BitmapModel, UnclipError>,
    r2: Result<BitmapModel, UnclipError>,
)
    requires
        r1 == spec_unclip(b),
        r2 == spec_unclip(b),
    ensures
        r1 == r2,
{
}

} // verus!
