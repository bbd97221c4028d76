//! The external PNG encoder, behind a single trusted wrapper.
use vstd::prelude::*;

verus! {

/// The PNG stream that the external encoder emits for an 8-bit-per-channel
/// RGB image of the given dimensions and tightly packed row-major pixel
/// bytes. The stream is a function of these arguments alone; its byte
/// layout is not restated here.
pub uninterp spec fn png_stream_of(width: u32, height: u32, pixels: Seq<u8>) -> Seq<u8>;

/// The external PNG encoder refused the dimensions or the buffer handed
/// to it.
#[derive(Clone, Copy, Debug, PartialEq, Eq, Structural)]
pub enum PngError {
    Encoding,
}

/// Relies on png::Encoder and png::Writer, configured for 8-bit RGB with
/// the crate's default compression: the emitted stream depends on width,
/// height and the pixel bytes alone. The buffer must hold exactly three
/// bytes per declared pixel — the encoder checks its length against
/// `width`-sized rows times `height` and the sink is an infallible
/// in-memory vector, so with a matching buffer the only refusal left is a
/// zero dimension, which the format itself forbids.
#[verifier::external_body]
pub(crate) fn png_encode_rgb(width: u32, height: u32, pixels: &Vec<u8>) -> (r: Result<
    Vec<u8>,
    PngError,
>)
    requires
        pixels@.len() == 3 * width * height,
    ensures
        width > 0 && height > 0 ==> r is Ok,
        r is Ok ==> r->Ok_0@ == png_stream_of(width, height, pixels@),
{
    let mut out: Vec<u8> = Vec::new();
    let mut enc = png::Encoder::new(&mut out, width, height);
    enc.set_color(png::ColorType::Rgb);
    enc.set_depth(png::BitDepth::Eight);
    let mut writer = enc.write_header().map_err(|_| PngError::Encoding)?;
    writer.write_image_data(pixels.as_slice()).map_err(|_| PngError::Encoding)?;
    writer.finish().map_err(|_| PngError::Encoding)?;
    Ok(out)
}

} // verus!
