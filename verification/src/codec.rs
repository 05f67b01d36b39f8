//! The PNG codec at the boundary of the library: what is handed to the `png`
//! crate and what is taken back from it, as plain values.

use vstd::prelude::*;

verus! {

/// How the samples of a decoded frame are laid out.
#[derive(Clone, Copy, Debug, PartialEq, Eq, Structural)]
pub enum ColorType {
    Grayscale,
    Rgb,
    Indexed,
    GrayscaleAlpha,
    Rgba,
}

/// The side on which a failure of the codec arose.
#[derive(Clone, Copy, Debug, PartialEq, Eq, Structural)]
pub enum CodecFailure {
    Io,
    Format,
    Parameter,
    LimitsExceeded,
}

/// One decoded frame as the codec hands it out: its size, the layout of its
/// samples, and the samples row by row.
#[derive(Debug)]
pub struct RawFrame {
    pub width: u32,
    pub height: u32,
    pub color_type: ColorType,
    pub data: Vec<u8>,
}

/// A `RawFrame` as a mathematical value.
pub struct FrameView {
    pub width: u32,
    pub height: u32,
    pub color_type: ColorType,
    pub data: Seq<u8>,
}

impl View for RawFrame {
    type V = FrameView;

    open spec fn view(&self) -> FrameView {
        FrameView {
            width: self.width,
            height: self.height,
            color_type: self.color_type,
            data: self.data@,
        }
    }
}

/// The error of the `png` decoder, carried through without a look inside.
#[verifier::external_type_specification]
#[verifier::external_body]
pub struct ExDecodingError(png::DecodingError);

/// The error of the `png` encoder, carried through without a look inside.
#[verifier::external_type_specification]
#[verifier::external_body]
pub struct ExEncodingError(png::EncodingError);

/// The first frame that the `png` decoder reads out of `bytes`, where it
/// reads one.
pub uninterp spec fn png_frame(bytes: Seq<u8>) -> FrameView;

/// The PNG file that the `png` encoder writes for an image of `width` by
/// `height` pixels with three 8-bit samples each, given row by row in `data`.
pub uninterp spec fn png_encoded(width: u32, height: u32, data: Seq<u8>) -> Seq<u8>;

/// Decodes the first frame of a PNG file. `png::Decoder::new` is given a
/// cursor over `bytes` and keeps its default limits and transformations;
/// `png::Decoder::read_info` reads up to the image data; a buffer of
/// `png::Reader::output_buffer_size` bytes is made; `png::Reader::next_frame`
/// fills it. The size and the colour type are those of the `png::OutputInfo`
/// that comes back, and the buffer is handed on whole.
///
/// Trusted: whenever the decoder succeeds, the frame it hands out is the one
/// named `png_frame(bytes)`, which is to say that it depends on `bytes`
/// alone. Nothing is claimed about when the decoder succeeds: that also
/// depends on how much memory the machine can address.
#[verifier::external_body]
pub(crate) fn decode_frame(bytes: &[u8]) -> (r: Result<RawFrame, png::DecodingError>)
    ensures
        r matches Ok(frame) ==> frame@ == png_frame(bytes@),
{
    let mut reader = png::Decoder::new(std::io::Cursor::new(bytes)).read_info()?;
    let mut data = vec![0u8; reader.output_buffer_size().unwrap_or(0)];
    let info = reader.next_frame(&mut data)?;
    let color_type = match info.color_type {
        png::ColorType::Grayscale => ColorType::Grayscale,
        png::ColorType::Rgb => ColorType::Rgb,
        png::ColorType::Indexed => ColorType::Indexed,
        png::ColorType::GrayscaleAlpha => ColorType::GrayscaleAlpha,
        png::ColorType::Rgba => ColorType::Rgba,
    };
    Ok(RawFrame { width: info.width, height: info.height, color_type, data })
}

/// Tells the variants of `png::DecodingError` apart. Nothing is claimed of
/// the result.
#[verifier::external_body]
pub(crate) fn decoding_failure(e: &png::DecodingError) -> CodecFailure {
    match e {
        png::DecodingError::IoError(_) => CodecFailure::Io,
        png::DecodingError::Format(_) => CodecFailure::Format,
        png::DecodingError::Parameter(_) => CodecFailure::Parameter,
        png::DecodingError::LimitsExceeded => CodecFailure::LimitsExceeded,
    }
}

/// Encodes a PNG file into a fresh buffer. `png::Encoder::new` is given the
/// buffer and the size, `png::Encoder::set_color` the colour type `Rgb` and
/// `png::Encoder::set_depth` eight bits per sample; then come
/// `png::Encoder::write_header`, `png::Writer::write_image_data` with `data`,
/// and `png::Writer::finish`.
///
/// The samples have to be as many as the size calls for: with any other
/// number `write_image_data` multiplies the length of a row by the height
/// without a check, which can overflow.
///
/// Trusted: whenever the encoder succeeds, the file it wrote is the one named
/// `png_encoded(width, height, data)`, which is to say that it depends on the
/// size and the samples alone. And it succeeds if and only if neither side
/// is zero: `write_header` refuses a width or a height of zero and nothing
/// else of what is set here; `write_image_data` refuses only a wrong number
/// of samples, and writes its chunks, none of them too long for one, into
/// the buffer, which takes whatever is written.
#[verifier::external_body]
pub(crate) fn encode_rgb8(width: u32, height: u32, data: &[u8]) -> (r: Result<
    Vec<u8>,
    png::EncodingError,
>)
    requires
        data@.len() == 3 * width * height,
    ensures
        r matches Ok(file) ==> file@ == png_encoded(width, height, data@),
        r.is_ok() == (width > 0 && height > 0),
{
    let mut file = Vec::new();
    let mut encoder = png::Encoder::new(&mut file, width, height);
    encoder.set_color(png::ColorType::Rgb);
    encoder.set_depth(png::BitDepth::Eight);
    let mut writer = encoder.write_header()?;
    writer.write_image_data(data)?;
    writer.finish()?;
    Ok(file)
}

/// Tells the variants of `png::EncodingError` apart. Nothing is claimed of
/// the result.
#[verifier::external_body]
pub(crate) fn encoding_failure(e: &png::EncodingError) -> CodecFailure {
    match e {
        png::EncodingError::IoError(_) => CodecFailure::Io,
        png::EncodingError::Format(_) => CodecFailure::Format,
        png::EncodingError::Parameter(_) => CodecFailure::Parameter,
        png::EncodingError::LimitsExceeded => CodecFailure::LimitsExceeded,
    }
}

} // verus!
