use imgclip::dib::DIB;
use std::io::Cursor;

const BI_RGB: u32 = 0;

fn info_header(
    width: i32,
    height: i32,
    bit_count: u16,
    compression: u32,
    size_image: u32,
    clr_used: u32,
) -> Vec<u8> {
    let mut b = Vec::new();
    b.extend_from_slice(&40u32.to_le_bytes());
    b.extend_from_slice(&width.to_le_bytes());
    b.extend_from_slice(&height.to_le_bytes());
    b.extend_from_slice(&1u16.to_le_bytes());
    b.extend_from_slice(&bit_count.to_le_bytes());
    b.extend_from_slice(&compression.to_le_bytes());
    b.extend_from_slice(&size_image.to_le_bytes());
    b.extend_from_slice(&2835i32.to_le_bytes());
    b.extend_from_slice(&2835i32.to_le_bytes());
    b.extend_from_slice(&clr_used.to_le_bytes());
    b.extend_from_slice(&0u32.to_le_bytes());
    b
}

#[test]
fn encode_png_stream_decodes_back() {
    // 2x2 plain 32-bit raster; pixels chosen so every reconstructed byte
    // differs from the raw payload bytes.
    let mut block = info_header(2, 2, 32, BI_RGB, 16, 0);
    block.extend_from_slice(&0x11223344u32.to_le_bytes());
    block.extend_from_slice(&0x55667788u32.to_le_bytes());
    block.extend_from_slice(&0x99AABBCCu32.to_le_bytes());
    block.extend_from_slice(&0xDDEEFF00u32.to_le_bytes());
    let dib = DIB::unclip(&block).unwrap();
    let expected_rgb = dib.rgb_data().unwrap();
    assert_eq!(
        expected_rgb,
        vec![0x11, 0x22, 0x33, 0x55, 0x66, 0x77, 0x99, 0xAA, 0xBB, 0xDD, 0xEE, 0xFF]
    );

    let stream = dib.encode_png().unwrap().unwrap();
    // A real PNG stream, not the pixel bytes handed through.
    assert_eq!(&stream[0..8], &[137, 80, 78, 71, 13, 10, 26, 10]);

    let decoder = png::Decoder::new(Cursor::new(stream));
    let mut reader = decoder.read_info().unwrap();
    let mut buf = vec![0u8; reader.output_buffer_size().unwrap()];
    let frame = reader.next_frame(&mut buf).unwrap();
    assert_eq!(frame.width, 2);
    assert_eq!(frame.height, 2);
    assert_eq!(frame.color_type, png::ColorType::Rgb);
    assert_eq!(frame.bit_depth, png::BitDepth::Eight);
    buf.truncate(frame.buffer_size());
    assert_eq!(buf, expected_rgb);
}

#[test]
fn encode_png_zero_width_is_an_error() {
    // A zero dimension still reconstructs (an empty buffer), but the PNG
    // format forbids it, so the encoder's refusal is passed through.
    let block = info_header(0, 1, 32, BI_RGB, 0, 0);
    let dib = imgclip::dib::DIB::unclip(&block).unwrap();
    assert_eq!(dib.rgb_data().unwrap(), Vec::<u8>::new());
    assert_eq!(
        dib.encode_png().unwrap().unwrap_err(),
        imgclip::png_enc::PngError::Encoding
    );
}

#[test]
fn encode_png_absent_without_reconstruction() {
    // An embedded stream has no pixel reconstruction, so no PNG either.
    let mut block = info_header(1, 1, 0, 5, 2, 0);
    block.extend_from_slice(&[1, 2]);
    let dib = DIB::unclip(&block).unwrap();
    assert!(dib.encode_png().is_none());
}
