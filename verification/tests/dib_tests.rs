use imgclip::dib::{UnclipError, DIB};
use imgclip::fmt::{BitsPPx, ColorQuad, DIBFmt};
use imgclip::header::HeaderView;

const BI_RGB: u32 = 0;
const BI_BITFIELDS: u32 = 3;
const BI_PNG: u32 = 5;
const BI_JPEG: u32 = 4;

fn info_header(
    width: i32,
    height: i32,
    bit_count: u16,
    compression: u32,
    size_image: u32,
    clr_used: u32,
) -> Vec<u8> {
    let mut b = Vec::new();
    b.extend_from_slice(&40u32.to_le_bytes());
    b.extend_from_slice(&width.to_le_bytes());
    b.extend_from_slice(&height.to_le_bytes());
    b.extend_from_slice(&1u16.to_le_bytes());
    b.extend_from_slice(&bit_count.to_le_bytes());
    b.extend_from_slice(&compression.to_le_bytes());
    b.extend_from_slice(&size_image.to_le_bytes());
    b.extend_from_slice(&2835i32.to_le_bytes());
    b.extend_from_slice(&2835i32.to_le_bytes());
    b.extend_from_slice(&clr_used.to_le_bytes());
    b.extend_from_slice(&0u32.to_le_bytes());
    b
}

fn mask_quads(red: u32, green: u32, blue: u32) -> Vec<u8> {
    let mut b = Vec::new();
    b.extend_from_slice(&red.to_le_bytes());
    b.extend_from_slice(&green.to_le_bytes());
    b.extend_from_slice(&blue.to_le_bytes());
    b
}

#[test]
fn round_trip_32_bitfields() {
    let mut block = info_header(1, 1, 32, BI_BITFIELDS, 4, 0);
    block.extend_from_slice(&mask_quads(0xFF000000, 0x00FF0000, 0x0000FF00));
    block.extend_from_slice(&0x11223344u32.to_le_bytes());
    let dib = DIB::unclip(&block).unwrap();
    let file = dib.encode_bmp();
    assert_eq!(file.len(), 14 + block.len());
    assert_eq!(&file[14..], &block[..]);
    assert_eq!(&file[0..2], b"BM");
    assert_eq!(&file[2..6], &(14 + block.len() as u32).to_le_bytes());
    assert_eq!(&file[10..14], &(14u32 + 40 + 12).to_le_bytes());
}

#[test]
fn round_trip_16_bitfields() {
    let mut block = info_header(2, 1, 16, BI_BITFIELDS, 4, 0);
    block.extend_from_slice(&mask_quads(0xF800, 0x07E0, 0x001F));
    block.extend_from_slice(&[0x00, 0xF8, 0xE0, 0x07]);
    let dib = DIB::unclip(&block).unwrap();
    let file = dib.encode_bmp();
    assert_eq!(&file[14..], &block[..]);
    assert_eq!(&file[10..14], &(14u32 + 40 + 12).to_le_bytes());
}

#[test]
fn round_trip_24_plain() {
    let mut block = info_header(1, 1, 24, BI_RGB, 3, 0);
    block.extend_from_slice(&[0xAA, 0xBB, 0xCC]);
    let dib = DIB::unclip(&block).unwrap();
    let file = dib.encode_bmp();
    assert_eq!(&file[14..], &block[..]);
}

#[test]
fn masked_32_pixel_extraction() {
    let mut block = info_header(1, 1, 32, BI_BITFIELDS, 4, 0);
    block.extend_from_slice(&mask_quads(0xFF000000, 0x00FF0000, 0x0000FF00));
    block.extend_from_slice(&0x11223344u32.to_le_bytes());
    let dib = DIB::unclip(&block).unwrap();
    let rgb = dib.rgb_data().unwrap();
    assert_eq!(rgb, vec![0x11, 0x22, 0x33]);
}

#[test]
fn masked_16_pixel_extraction() {
    let mut block = info_header(1, 1, 16, BI_BITFIELDS, 2, 0);
    block.extend_from_slice(&mask_quads(0xF800, 0x07E0, 0x001F));
    block.extend_from_slice(&0xF800u16.to_le_bytes());
    let dib = DIB::unclip(&block).unwrap();
    let rgb = dib.rgb_data().unwrap();
    assert_eq!(rgb, vec![0x1F, 0x00, 0x00]);
}

#[test]
fn plain_24_zero_colors_has_no_table() {
    let mut block = info_header(1, 1, 24, BI_RGB, 3, 0);
    block.extend_from_slice(&[0x01, 0x02, 0x03]);
    let dib = DIB::unclip(&block).unwrap();
    assert!(dib.clrs.is_none());
    assert_eq!(dib.head.off_bits, 54);
    assert_eq!(dib.head.size, 54 + 3);
    let rgb = dib.rgb_data().unwrap();
    assert_eq!(rgb, vec![0x01, 0x02, 0x03]);
}

#[test]
fn plain_32_fixed_masks() {
    let mut block = info_header(1, 1, 32, BI_RGB, 4, 0);
    block.extend_from_slice(&0x11223344u32.to_le_bytes());
    let dib = DIB::unclip(&block).unwrap();
    assert!(dib.clrs.is_none());
    let rgb = dib.rgb_data().unwrap();
    assert_eq!(rgb, vec![0x11, 0x22, 0x33]);
}

#[test]
fn embedded_png_reads_no_table() {
    // A large declared colors-used count must be ignored for an embedded
    // PNG stream: the payload starts right after the header.
    let mut block = info_header(4, 4, 0, BI_PNG, 6, 9999);
    block.extend_from_slice(&[1, 2, 3, 4, 5, 6]);
    let dib = DIB::unclip(&block).unwrap();
    assert!(dib.clrs.is_none());
    assert_eq!(dib.head.off_bits, 54);
    assert_eq!(dib.data, vec![1, 2, 3, 4, 5, 6]);
    let info = HeaderView::parse(&block);
    assert!(matches!(DIBFmt::from(&info, &block), Some(DIBFmt::PNG)));
    assert!(dib.rgb_data().is_none());
}

#[test]
fn embedded_jpeg_recognized() {
    let mut block = info_header(4, 4, 0, BI_JPEG, 2, 0);
    block.extend_from_slice(&[7, 8]);
    let info = HeaderView::parse(&block);
    assert!(matches!(DIBFmt::from(&info, &block), Some(DIBFmt::JPG)));
    let dib = DIB::unclip(&block).unwrap();
    assert!(dib.clrs.is_none());
    assert!(dib.rgb_data().is_none());
}

#[test]
fn indexed_8bpp_palette_extracted() {
    let mut block = info_header(1, 1, 8, BI_RGB, 1, 2);
    block.extend_from_slice(&[0x10, 0x20, 0x30, 0x00, 0x40, 0x50, 0x60, 0x00]);
    block.push(0x01);
    let info = HeaderView::parse(&block);
    match DIBFmt::from(&info, &block) {
        Some(DIBFmt::RGB(t, BitsPPx::Byte)) => {
            assert_eq!(t.len(), 2);
            assert_eq!(
                t[0],
                ColorQuad { blue: 0x10, green: 0x20, red: 0x30, reserved: 0x00 }
            );
            assert_eq!(
                t[1],
                ColorQuad { blue: 0x40, green: 0x50, red: 0x60, reserved: 0x00 }
            );
        }
        other => panic!("unexpected classification: {:?}", other),
    }
    let dib = DIB::unclip(&block).unwrap();
    assert_eq!(dib.clrs.as_ref().map(|t| t.len()), Some(2));
    assert_eq!(dib.head.off_bits, 54 + 8);
    // Indexed reconstruction at depth 8 is unsupported: absence, not a crash.
    assert!(dib.rgb_data().is_none());
    // The table bytes re-emitted verbatim.
    let file = dib.encode_bmp();
    assert_eq!(&file[14..], &block[..]);
}

#[test]
fn indexed_8bpp_empty_palette_collapses() {
    // Recognized as an indexed raster, but the zero-length palette is
    // treated as "no table": offset excludes any table bytes.
    let mut block = info_header(1, 1, 8, BI_RGB, 1, 0);
    block.push(0x05);
    let info = HeaderView::parse(&block);
    match DIBFmt::from(&info, &block) {
        Some(DIBFmt::RGB(t, BitsPPx::Byte)) => assert!(t.is_empty()),
        other => panic!("unexpected classification: {:?}", other),
    }
    let dib = DIB::unclip(&block).unwrap();
    assert!(dib.clrs.is_none());
    assert_eq!(dib.head.off_bits, 54);
    let file = dib.encode_bmp();
    assert_eq!(&file[14..], &block[..]);
}

#[test]
fn bitmask_tag_at_8bpp_unrecognized() {
    let block = info_header(1, 1, 8, BI_BITFIELDS, 0, 0);
    let info = HeaderView::parse(&block);
    assert!(DIBFmt::from(&info, &block).is_none());
    // Construction still succeeds, with no table and no reconstruction.
    let dib = DIB::unclip(&block).unwrap();
    assert!(dib.clrs.is_none());
    assert!(dib.rgb_data().is_none());
}

#[test]
fn raster_tag_at_16bpp_unrecognized() {
    let mut block = info_header(1, 1, 16, BI_RGB, 2, 0);
    block.extend_from_slice(&[0x00, 0xF8]);
    let info = HeaderView::parse(&block);
    assert!(DIBFmt::from(&info, &block).is_none());
    let dib = DIB::unclip(&block).unwrap();
    assert!(dib.rgb_data().is_none());
}

#[test]
fn header_truncated_fails() {
    let block = vec![0u8; 39];
    assert_eq!(DIB::unclip(&block).unwrap_err(), UnclipError::HeaderTruncated);
}

#[test]
fn table_truncated_fails() {
    // Declared palette of 10 entries, but the block ends at the header.
    let block = info_header(1, 1, 8, BI_RGB, 0, 10);
    assert_eq!(DIB::unclip(&block).unwrap_err(), UnclipError::TableTruncated);
}

#[test]
fn payload_truncated_fails() {
    // Declared image size far beyond the actual block length.
    let mut block = info_header(1, 1, 24, BI_RGB, 1000, 0);
    block.extend_from_slice(&[0; 8]);
    assert_eq!(DIB::unclip(&block).unwrap_err(), UnclipError::PayloadTruncated);
}

#[test]
fn unclip_is_idempotent() {
    let mut block = info_header(1, 1, 32, BI_BITFIELDS, 4, 0);
    block.extend_from_slice(&mask_quads(0xFF000000, 0x00FF0000, 0x0000FF00));
    block.extend_from_slice(&0xDEADBEEFu32.to_le_bytes());
    let a = DIB::unclip(&block).unwrap();
    let b = DIB::unclip(&block).unwrap();
    assert_eq!(a.head, b.head);
    assert_eq!(a.info, b.info);
    assert_eq!(a.clrs, b.clrs);
    assert_eq!(a.data, b.data);
}

#[test]
fn rgb_data_needs_three_masks() {
    let mut block = info_header(1, 1, 32, BI_BITFIELDS, 4, 0);
    block.extend_from_slice(&mask_quads(0xFF000000, 0x00FF0000, 0x0000FF00));
    block.extend_from_slice(&[0; 4]);
    let mut dib = DIB::unclip(&block).unwrap();
    dib.clrs = Some(vec![ColorQuad { blue: 0, green: 0, red: 0, reserved: 0xFF }]);
    assert!(dib.rgb_data().is_none());
}

#[test]
fn rgb_data_rejects_short_payload() {
    // Dimensions demand 16 bytes of payload; only 4 are held.
    let mut block = info_header(2, 2, 32, BI_RGB, 4, 0);
    block.extend_from_slice(&[0; 4]);
    let dib = DIB::unclip(&block).unwrap();
    assert!(dib.rgb_data().is_none());
}

#[test]
fn header_view_fields() {
    let block = info_header(-3, 7, 16, BI_BITFIELDS, 11, 13);
    let info = HeaderView::parse(&block);
    assert_eq!(info.size, 40);
    assert_eq!(info.width, -3);
    assert_eq!(info.height, 7);
    assert_eq!(info.planes, 1);
    assert_eq!(info.bit_count, 16);
    assert_eq!(info.compression, BI_BITFIELDS);
    assert_eq!(info.size_image, 11);
    assert_eq!(info.clr_used, 13);
}

#[test]
fn negative_height_yields_no_buffer() {
    // Row order is passed through, but a negative dimension cannot size a
    // pixel buffer: absence, not a wild allocation.
    let mut block = info_header(1, -1, 32, BI_RGB, 4, 0);
    block.extend_from_slice(&[0; 4]);
    let dib = DIB::unclip(&block).unwrap();
    assert!(dib.rgb_data().is_none());
}

#[test]
fn bits_ppx_round_trip() {
    for n in [1u16, 4, 8, 16, 24, 32, 2, 64, 0] {
        assert_eq!(BitsPPx::from(n).bits(), n);
    }
    assert!(matches!(BitsPPx::from(24), BitsPPx::Triplet));
    assert!(matches!(BitsPPx::from(64), BitsPPx::Other(64)));
}
