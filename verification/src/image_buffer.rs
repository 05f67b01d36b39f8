//! The canvas: a grid of colours, and its passage to and from PNG files.

use crate::codec::{
    decode_frame, decoding_failure, encode_rgb8, encoding_failure, png_encoded, png_frame,
    CodecFailure, ColorType, FrameView, RawFrame,
};
use crate::color::{Color, ColorIter};
use vstd::prelude::*;

verus! {

/// Holds image data, row by row.
#[derive(Debug)]
pub struct ImageBuffer {
    pub width: usize,
    pub height: usize,
    pub buffer: Vec<Color>,
}

/// An image as a mathematical value.
pub struct ImageView {
    pub width: usize,
    pub height: usize,
    pub pixels: Seq<Color>,
}

impl ImageView {
    /// There is one colour for each coordinate.
    pub open spec fn wf(self) -> bool {
        self.pixels.len() == self.width * self.height
    }

    /// Whether the image is more than the encoder can be told: a side that
    /// is no `u32`, or more samples than a `usize` counts.
    pub open spec fn too_large(self) -> bool {
        self.width > u32::MAX || self.height > u32::MAX || 3 * self.pixels.len() > usize::MAX
    }

    /// Whether the image can be written as a PNG file: it is well formed,
    /// not too large, and neither side is zero.
    pub open spec fn savable(self) -> bool {
        self.wf() && !self.too_large() && self.width > 0 && self.height > 0
    }

    /// Whether column `x` of row `y` lies inside the image.
    pub open spec fn contains(self, x: int, y: int) -> bool {
        0 <= x < self.width && 0 <= y < self.height
    }

    /// The colour at column `x` of row `y`.
    pub open spec fn at(self, x: int, y: int) -> Color {
        self.pixels[y * self.width + x]
    }

    /// The image with the colour at column `x` of row `y` replaced.
    pub open spec fn with_pixel(self, x: int, y: int, color: Color) -> ImageView {
        ImageView { pixels: self.pixels.update(y * self.width + x, color), ..self }
    }
}

impl View for ImageBuffer {
    type V = ImageView;

    open spec fn view(&self) -> ImageView {
        ImageView {
            width: self.width,
            height: self.height,
            pixels: self.buffer@,
        }
    }
}

/// Why an image could not be loaded.
#[derive(Debug, Clone, Copy, PartialEq, Eq, Structural)]
pub enum LoadImageError {
    /// The decoder gave the file up.
    Decoding(CodecFailure),
    /// The number of samples is not the one that the size and the colour type
    /// call for.
    DataAndColorTypeMismatch(ColorType),
    /// Only three and four channel images can be loaded.
    UnsupportedColorType(ColorType),
}

impl LoadImageError {
    /// What went wrong, in words.
    pub open spec fn description_text(self) -> Seq<char> {
        match self {
            LoadImageError::Decoding(_) => "The given data could not be decoded as a PNG"@,
            LoadImageError::DataAndColorTypeMismatch(_) =>
                "The given PNG data does not align correctly to the color type"@,
            LoadImageError::UnsupportedColorType(_) => "The color type in the PNG is not supported"@,
        }
    }

    /// What went wrong, in words.
    pub fn description(&self) -> (text: &'static str)
        ensures
            text@ == self.description_text(),
    {
        match self {
            LoadImageError::Decoding(_) => "The given data could not be decoded as a PNG",
            LoadImageError::DataAndColorTypeMismatch(_) => {
                "The given PNG data does not align correctly to the color type"
            },
            LoadImageError::UnsupportedColorType(_) => "The color type in the PNG is not supported",
        }
    }
}

/// Why an image could not be turned into a PNG file.
#[derive(Debug, Clone, Copy, PartialEq, Eq, Structural)]
pub enum SaveImageError {
    /// The image does not hold one colour for each coordinate.
    Malformed,
    /// A side of the image, or the number of its samples, is more than the
    /// encoder can be told.
    TooLarge,
    /// The encoder gave the image up: one of its sides is zero.
    Encoding(CodecFailure),
    /// The file that the encoder wrote was read back, and did not come back
    /// as the image.
    Unreadable,
}

/// The colours that `data` holds, three samples each.
pub open spec fn unpack_rgb(data: Seq<u8>) -> Seq<Color> {
    Seq::new(
        (data.len() / 3) as nat,
        |i: int| Color::RGB(data[3 * i], data[3 * i + 1], data[3 * i + 2]),
    )
}

/// The colours that `data` holds, four samples each.
pub open spec fn unpack_rgba(data: Seq<u8>) -> Seq<Color> {
    Seq::new(
        (data.len() / 4) as nat,
        |i: int| Color::RGBA(data[4 * i], data[4 * i + 1], data[4 * i + 2], data[4 * i + 3]),
    )
}

/// The red, green and blue samples of `pixels`, one colour after the other.
/// An alpha value is left out.
pub open spec fn pack_rgb(pixels: Seq<Color>) -> Seq<u8> {
    Seq::new(3 * pixels.len(), |i: int| pixels[i / 3].channels()[i % 3])
}

/// The image that a decoded frame stands for.
pub open spec fn frame_image(frame: FrameView) -> Result<ImageView, LoadImageError> {
    match frame.color_type {
        ColorType::Rgb => if frame.data.len() == frame.width * frame.height * 3 {
            Ok(
                ImageView {
                    width: frame.width as usize,
                    height: frame.height as usize,
                    pixels: unpack_rgb(frame.data),
                },
            )
        } else {
            Err(LoadImageError::DataAndColorTypeMismatch(ColorType::Rgb))
        },
        ColorType::Rgba => if frame.data.len() == frame.width * frame.height * 4 {
            Ok(
                ImageView {
                    width: frame.width as usize,
                    height: frame.height as usize,
                    pixels: unpack_rgba(frame.data),
                },
            )
        } else {
            Err(LoadImageError::DataAndColorTypeMismatch(ColorType::Rgba))
        },
        other => Err(LoadImageError::UnsupportedColorType(other)),
    }
}

/// A loaded image, or the failure, as a mathematical value.
pub open spec fn loaded(r: Result<ImageBuffer, LoadImageError>) -> Result<
    ImageView,
    LoadImageError,
> {
    match r {
        Ok(image) => Ok(image@),
        Err(e) => Err(e),
    }
}

impl ImageBuffer {
    /// There is one colour for each coordinate.
    pub open spec fn wf(&self) -> bool {
        self@.wf()
    }

    /// Tells whether there is one colour for each coordinate.
    pub fn is_well_formed(&self) -> (r: bool)
        ensures
            r == self.wf(),
    {
        assert(0 <= self.width * self.height <= u128::MAX) by (nonlinear_arith)
            requires
                self.width <= u64::MAX,
                self.height <= u64::MAX,
        ;
        self.buffer.len() as u128 == (self.width as u128) * (self.height as u128)
    }

    /// A transparent black image of the given size.
    pub fn new(width: usize, height: usize) -> (image: Self)
        requires
            width * height <= usize::MAX,
        ensures
            image.wf(),
            image@.width == width,
            image@.height == height,
            forall|i: int| 0 <= i < width * height ==> image@.pixels[i] == Color::RGBA(0, 0, 0, 0),
    {
        let count: usize = width * height;
        let mut buffer: Vec<Color> = Vec::with_capacity(count);
        let mut i: usize = 0;
        while i < count
            invariant
                i <= count,
                buffer@.len() == i,
                forall|j: int| 0 <= j < i ==> buffer@[j] == Color::RGBA(0, 0, 0, 0),
            decreases count - i,
        {
            buffer.push(Color::RGBA(0, 0, 0, 0));
            i += 1;
        }
        ImageBuffer { width, height, buffer }
    }

    /// The image that a decoded frame stands for: its samples taken three by
    /// three or four by four, as the colour type says.
    pub fn from_frame(frame: RawFrame) -> (r: Result<Self, LoadImageError>)
        ensures
            loaded(r) == frame_image(frame@),
            r matches Ok(image) ==> image.wf(),
    {
        let samples: usize = match frame.color_type {
            ColorType::Rgb => 3,
            ColorType::Rgba => 4,
            other => {
                return Err(LoadImageError::UnsupportedColorType(other));
            },
        };
        assert(frame.width * frame.height * samples <= u128::MAX) by (nonlinear_arith)
            requires
                frame.width <= u32::MAX,
                frame.height <= u32::MAX,
                samples <= 4,
        ;
        let expected: u128 = (frame.width as u128) * (frame.height as u128) * (samples as u128);
        if frame.data.len() as u128 != expected {
            return Err(LoadImageError::DataAndColorTypeMismatch(frame.color_type));
        }
        let count: usize = frame.data.len() / samples;
        assert(count == frame.width * frame.height) by (nonlinear_arith)
            requires
                frame.data@.len() == frame.width * frame.height * samples,
                count == frame.data@.len() / (samples as nat),
                samples == 3 || samples == 4,
        ;
        let mut buffer: Vec<Color> = Vec::with_capacity(count);
        let mut i: usize = 0;
        while i < count
            invariant
                i <= count,
                samples == 3 || samples == 4,
                frame.data@.len() <= usize::MAX,
                count == frame.data@.len() / (samples as nat),
                buffer@.len() == i,
                samples == 3 ==> forall|j: int| 0 <= j < i ==> buffer@[j] == unpack_rgb(frame.data@)[j],
                samples == 4 ==> forall|j: int| 0 <= j < i ==> buffer@[j] == unpack_rgba(frame.data@)[j],
            decreases count - i,
        {
            assert(i * samples + samples <= frame.data@.len()) by (nonlinear_arith)
                requires
                    i < count,
                    count == frame.data@.len() / (samples as nat),
                    samples == 3 || samples == 4,
            ;
            let at: usize = i * samples;
            let color = if samples == 3 {
                Color::RGB(frame.data[at], frame.data[at + 1], frame.data[at + 2])
            } else {
                Color::RGBA(frame.data[at], frame.data[at + 1], frame.data[at + 2], frame.data[at + 3])
            };
            buffer.push(color);
            i += 1;
        }
        proof {
            if samples == 3 {
                assert(buffer@ =~= unpack_rgb(frame.data@));
            } else {
                assert(buffer@ =~= unpack_rgba(frame.data@));
            }
        }
        Ok(ImageBuffer { width: frame.width as usize, height: frame.height as usize, buffer })
    }

    /// Reads an image out of the bytes of a PNG file.
    ///
    /// Whether the decoder takes the file is its own matter. Where it does,
    /// the result is what `from_frame` makes of the frame it read. A frame
    /// that does not fill the buffer that the decoder asked for, as the
    /// first frame of an animation may not, is refused for the number of
    /// its samples rather than read in part.
    pub fn load_png_image(bytes: &[u8]) -> (r: Result<Self, LoadImageError>)
        ensures
            r matches Ok(image) ==> image.wf(),
            r matches Err(LoadImageError::Decoding(_)) || loaded(r) == frame_image(
                png_frame(bytes@),
            ),
    {
        match decode_frame(bytes) {
            Ok(frame) => Self::from_frame(frame),
            Err(e) => Err(LoadImageError::Decoding(decoding_failure(&e))),
        }
    }

    /// The red, green and blue samples of the image, pixel by pixel. Alpha
    /// values are left out.
    pub fn rgb_bytes(&self) -> (data: Vec<u8>)
        requires
            3 * self.buffer@.len() <= usize::MAX,
        ensures
            data@ == pack_rgb(self@.pixels),
    {
        let count: usize = self.buffer.len();
        let mut data: Vec<u8> = Vec::with_capacity(3 * count);
        let mut i: usize = 0;
        while i < count
            invariant
                i <= count,
                count == self.buffer@.len(),
                data@.len() == 3 * i,
                forall|j: int| 0 <= j < 3 * i ==> data@[j] == pack_rgb(self.buffer@)[j],
            decreases count - i,
        {
            let mut channels = ColorIter::new(&self.buffer[i]);
            let r = channels.next();
            let g = channels.next();
            let b = channels.next();
            data.push(r.unwrap());
            data.push(g.unwrap());
            data.push(b.unwrap());
            assert forall|j: int| 0 <= j < 3 * (i + 1) implies data@[j] == pack_rgb(
                self.buffer@,
            )[j] by {
            }
            i += 1;
        }
        data
    }

    /// Writes the image as the bytes of a PNG file with three channels.
    /// Alpha values are dropped.
    ///
    /// A file comes out if and only if the image can be saved. An image
    /// that is not well formed is refused as `Malformed`, a well-formed one
    /// that is too large as `TooLarge`, and one with a side of zero is
    /// given up by the encoder.
    pub fn save_png_image(&self) -> (r: Result<Vec<u8>, SaveImageError>)
        ensures
            r.is_ok() <==> self@.savable(),
            r matches Ok(file) ==> file@ == png_encoded(
                self.width as u32,
                self.height as u32,
                pack_rgb(self@.pixels),
            ),
            r matches Err(e) ==> {
                &&& e is Malformed <==> !self.wf()
                &&& e is TooLarge <==> self.wf() && self@.too_large()
                &&& e is Encoding <==> self.wf() && !self@.too_large()
            },
    {
        if !self.is_well_formed() {
            return Err(SaveImageError::Malformed);
        }
        if self.width > u32::MAX as usize || self.height > u32::MAX as usize || self.buffer.len()
            > usize::MAX / 3 {
            return Err(SaveImageError::TooLarge);
        }
        let data = self.rgb_bytes();
        assert(data@.len() == 3 * self.width * self.height) by (nonlinear_arith)
            requires
                data@.len() == 3 * self.buffer@.len(),
                self.buffer@.len() == self.width * self.height,
        ;
        match encode_rgb8(self.width as u32, self.height as u32, data.as_slice()) {
            Ok(file) => Ok(file),
            Err(e) => Err(SaveImageError::Encoding(encoding_failure(&e))),
        }
    }

    /// Tells whether the image holds the colours of `other`, without their
    /// alpha values, in an image of the same size.
    fn is_without_alpha(&self, other: &ImageBuffer) -> (r: bool)
        ensures
            r == (self@ == (ImageView { pixels: without_alpha(other@.pixels), ..other@ })),
    {
        if self.width != other.width || self.height != other.height || self.buffer.len()
            != other.buffer.len() {
            assert(self@.pixels.len() != without_alpha(other@.pixels).len() || self@.width
                != other@.width || self@.height != other@.height);
            return false;
        }
        let mut i: usize = 0;
        while i < self.buffer.len()
            invariant
                i <= self.buffer@.len(),
                self.buffer@.len() == other.buffer@.len(),
                forall|j: int| 0 <= j < i ==> self.buffer@[j] == other.buffer@[j].opaque(),
            decreases self.buffer@.len() - i,
        {
            if self.buffer[i] != other.buffer[i].without_alpha() {
                assert(self@.pixels[i as int] != without_alpha(other@.pixels)[i as int]);
                return false;
            }
            i += 1;
        }
        assert(self@.pixels =~= without_alpha(other@.pixels));
        true
    }

    /// Tells whether a decoded frame stands for this image without its
    /// alpha values.
    pub fn reads_back_from(&self, frame: RawFrame) -> (r: bool)
        ensures
            r == (frame_image(frame@) == Ok::<ImageView, LoadImageError>(
                ImageView { pixels: without_alpha(self@.pixels), ..self@ },
            )),
    {
        match Self::from_frame(frame) {
            Ok(back) => back.is_without_alpha(self),
            Err(_) => false,
        }
    }

    /// Writes the image as the bytes of a PNG file, as `save_png_image`
    /// does, and reads the file back before it hands it out.
    ///
    /// A file that comes out of here holds the image: whoever decodes it
    /// gets every pixel's red, green and blue back, in an image of the
    /// same size. The alpha values are lost. A file that does not read back
    /// so is not handed out. Whether the decoder reads the file is its own
    /// matter; what is made of the frame that it reads is `reads_back_from`.
    pub fn save_png_image_checked(&self) -> (r: Result<Vec<u8>, SaveImageError>)
        ensures
            r matches Ok(file) ==> {
                &&& self@.savable()
                &&& file@ == png_encoded(
                    self.width as u32,
                    self.height as u32,
                    pack_rgb(self@.pixels),
                )
                &&& frame_image(png_frame(file@)) == Ok::<ImageView, LoadImageError>(
                    ImageView { pixels: without_alpha(self@.pixels), ..self@ },
                )
            },
            r matches Err(e) ==> {
                &&& e is Malformed <==> !self.wf()
                &&& e is TooLarge <==> self.wf() && self@.too_large()
                &&& e is Encoding <==> self.wf() && !self@.too_large() && !self@.savable()
                &&& e is Unreadable <==> self@.savable()
            },
    {
        let file = match self.save_png_image() {
            Ok(file) => file,
            Err(e) => {
                return Err(e);
            },
        };
        let frame = match decode_frame(file.as_slice()) {
            Ok(frame) => frame,
            Err(_) => {
                return Err(SaveImageError::Unreadable);
            },
        };
        if self.reads_back_from(frame) {
            Ok(file)
        } else {
            Err(SaveImageError::Unreadable)
        }
    }

    /// The colour at column `x` of row `y`.
    pub fn get_point(&self, x: usize, y: usize) -> (color: Color)
        requires
            self.wf(),
            self@.contains(x as int, y as int),
        ensures
            color == self@.at(x as int, y as int),
    {
        proof {
            lemma_index_in_bounds(x as int, y as int, self.width as int, self.height as int);
            assert(self.buffer.len() == self.buffer@.len());
        }
        self.buffer[y * self.width + x]
    }

    /// The place of the colour at column `x` of row `y`, to write to.
    pub fn get_mut_ref(&mut self, x: usize, y: usize) -> (color: &mut Color)
        requires
            old(self).wf(),
            old(self)@.contains(x as int, y as int),
        ensures
            *color == old(self)@.at(x as int, y as int),
            final(self)@ == old(self)@.with_pixel(x as int, y as int, *final(color)),
    {
        proof {
            lemma_index_in_bounds(x as int, y as int, self.width as int, self.height as int);
            assert(self.buffer.len() == self.buffer@.len());
        }
        &mut self.buffer[y * self.width + x]
    }
}

/// The colours without their alpha values.
pub open spec fn without_alpha(pixels: Seq<Color>) -> Seq<Color> {
    pixels.map_values(|color: Color| color.opaque())
}

/// Samples that were packed three by three come back as the colours that
/// they were taken from, but for the alpha values.
pub proof fn lemma_unpack_pack_rgb(pixels: Seq<Color>)
    ensures
        unpack_rgb(pack_rgb(pixels)) == without_alpha(pixels),
{
    let data = pack_rgb(pixels);
    assert forall|i: int| 0 <= i < pixels.len() implies unpack_rgb(data)[i] == without_alpha(
        pixels,
    )[i] by {
    }
}

/// An image that goes out as a frame of three channels and comes back as
/// the same frame is the image again, pixel by pixel, but for the alpha
/// values. What lies between, the PNG file, is the codec's matter.
pub proof fn lemma_rgb_frame_round_trip(image: ImageView)
    requires
        image.wf(),
        image.width <= u32::MAX,
        image.height <= u32::MAX,
    ensures
        frame_image(
            FrameView {
                width: image.width as u32,
                height: image.height as u32,
                color_type: ColorType::Rgb,
                data: pack_rgb(image.pixels),
            },
        ) == Ok::<ImageView, LoadImageError>(
            ImageView { pixels: without_alpha(image.pixels), ..image },
        ),
{
    lemma_unpack_pack_rgb(image.pixels);
}

/// A coordinate inside the grid has its place inside the buffer.
pub proof fn lemma_index_in_bounds(x: int, y: int, width: int, height: int)
    requires
        0 <= x < width,
        0 <= y < height,
    ensures
        0 <= y * width,
        0 <= y * width + x < width * height,
{
    assert(0 <= y * width && y * width + x < width * height) by (nonlinear_arith)
        requires
            0 <= x < width,
            0 <= y < height,
    ;
}

/// Two coordinates inside the grid with one place in the buffer are the
/// same coordinate.
pub proof fn lemma_index_injective(x1: int, y1: int, x2: int, y2: int, width: int)
    requires
        0 <= x1 < width,
        0 <= x2 < width,
        0 <= y1,
        0 <= y2,
        y1 * width + x1 == y2 * width + x2,
    ensures
        x1 == x2,
        y1 == y2,
{
    assert(y1 == y2) by (nonlinear_arith)
        requires
            0 <= x1 < width,
            0 <= x2 < width,
            0 <= y1,
            0 <= y2,
            y1 * width + x1 == y2 * width + x2,
    ;
}

} // verus!
