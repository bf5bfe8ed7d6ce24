//! A PNG-encoded image.

use vstd::prelude::*;
use crate::encoder::{encode_png, png_stream, raw_len_bound, raw_row_bound};
use crate::error::ImageError;
use crate::image::{packed_len, Image, ImageView};

verus! {

/// What a [`PngImage`] stands for: the dimensions of the picture and the
/// bytes of the PNG stream that holds it.
pub struct PngImageView {
    pub width: u32,
    pub height: u32,
    pub bytes: Seq<u8>,
}

/// A picture of `width` by `height` pixels as a complete PNG stream.
#[derive(Debug)]
pub struct PngImage {
    width: u32,
    height: u32,
    bytes: Vec<u8>,
}

impl View for PngImage {
    type V = PngImageView;

    closed spec fn view(&self) -> PngImageView {
        PngImageView { width: self.width, height: self.height, bytes: self.bytes@ }
    }
}

/// The encoder's answer for `image`, handed over as RGBA pixels of eight-bit
/// samples.
pub open spec fn rgba8_stream(image: ImageView) -> Option<Seq<u8>> {
    png_stream(
        png::ColorType::Rgba,
        png::BitDepth::Eight,
        image.width,
        image.height,
        image.pixels,
    )
}

/// The widest picture that can be encoded: a row of its pixels, with the
/// byte that the encoder puts in front of each row, is counted in 32 bits.
pub const MAX_ENCODABLE_WIDTH: u32 = 1_073_741_823;

/// Whether a picture of `width` by `height` pixels can be encoded: it has
/// pixels, it is no wider than [`MAX_ENCODABLE_WIDTH`], and its pixels
/// together with one more byte for each row take no more bytes than a
/// buffer can hold on this machine.
pub open spec fn encodable(width: u32, height: u32) -> bool {
    &&& 0 < width <= MAX_ENCODABLE_WIDTH
    &&& 0 < height
    &&& packed_len(width, height) + height <= isize::MAX
}

/// What encoding `image` gives, once the encoder has answered with `stream`:
/// an image that cannot be encoded is refused whatever the encoder says, an
/// encoder's failure is passed on, and otherwise the stream is kept together
/// with the image's dimensions.
pub open spec fn encoded(image: ImageView, stream: Option<Seq<u8>>) -> Result<
    PngImageView,
    ImageError,
> {
    if !encodable(image.width, image.height) {
        Err(ImageError::InvalidDimensions)
    } else {
        match stream {
            Some(bytes) => Ok(PngImageView { width: image.width, height: image.height, bytes }),
            None => Err(ImageError::EncodeIoFailure),
        }
    }
}

/// Empty images are never encoded: an image without pixels is refused with
/// `InvalidDimensions`, whatever the encoder would have answered.
pub proof fn lemma_empty_image_refused(image: ImageView, stream: Option<Seq<u8>>)
    requires
        image.width == 0 || image.height == 0,
    ensures
        encoded(image, stream) == Err::<PngImageView, ImageError>(ImageError::InvalidDimensions),
{
}

/// Encoding keeps the dimensions and hands on the encoder's stream as it is:
/// a successful result has the image's width and height, which are not
/// zero, and its bytes are the stream that the encoder wrote.
pub proof fn lemma_encoded_keeps_dimensions(image: ImageView, stream: Option<Seq<u8>>)
    ensures
        encoded(image, stream) matches Ok(png) ==> {
            &&& png.width == image.width
            &&& png.height == image.height
            &&& image.width > 0
            &&& image.height > 0
            &&& stream == Some(png.bytes)
        },
{
}

/// `width * height` of two `u32` stays below 2^64.
proof fn lemma_area_bound(width: u32, height: u32)
    ensures
        0 <= (width as nat) * (height as nat) <= 0xFFFF_FFFE_0000_0001,
{
    assert(0 <= (width as nat) * (height as nat) <= 0xFFFF_FFFF * 0xFFFF_FFFF)
        by (nonlinear_arith)
        requires
            0 <= width <= 0xFFFF_FFFF,
            0 <= height <= 0xFFFF_FFFF,
    ;
}

impl PngImage {
    /// Wraps an already encoded PNG stream together with its dimensions.
    pub fn new(width: u32, height: u32, bytes: Vec<u8>) -> (res: PngImage)
        ensures
            res@ == (PngImageView { width, height, bytes: bytes@ }),
    {
        PngImage { width, height, bytes }
    }

    /// Turns the encoder's answer for a picture of `width` by `height`
    /// pixels into the library's result: the stream becomes a `PngImage`,
    /// any encoder error becomes `EncodeIoFailure`.
    pub fn from_encoder_outcome(
        width: u32,
        height: u32,
        outcome: Result<Vec<u8>, png::EncodingError>,
    ) -> (res: Result<PngImage, ImageError>)
        ensures
            match outcome {
                Ok(stream) => res matches Ok(image) && image@ == (PngImageView {
                    width,
                    height,
                    bytes: stream@,
                }),
                Err(_) => res matches Err(e) && e == ImageError::EncodeIoFailure,
            },
    {
        match outcome {
            Ok(stream) => Ok(PngImage::new(width, height, stream)),
            Err(_) => Err(ImageError::EncodeIoFailure),
        }
    }

    /// Decides [`encodable`].
    pub fn can_encode(width: u32, height: u32) -> (b: bool)
        ensures
            b == encodable(width, height),
    {
        if width == 0 || height == 0 || width > MAX_ENCODABLE_WIDTH {
            return false;
        }
        proof {
            lemma_area_bound(width, height);
        }
        let needed: u128 = (width as u128) * (height as u128) * 4 + (height as u128);
        needed <= isize::MAX as u128
    }

    /// Encodes `image` as a single-frame PNG with color type RGBA and bit
    /// depth eight.
    ///
    /// Succeeds exactly when the image can be encoded (see [`encodable`]),
    /// and then holds the encoder's stream and the image's dimensions.
    /// Otherwise it fails with `InvalidDimensions`, and the encoder is not
    /// asked. An `Image` always holds four bytes for each pixel, so the
    /// encoder never sees a buffer of the wrong length; should it report an
    /// error all the same, that is `EncodeIoFailure`. A failure never leaves
    /// a partial stream behind.
    pub fn from_image(image: Image) -> (res: Result<PngImage, ImageError>)
        ensures
            res is Ok <==> encodable(image@.width, image@.height),
            ({
                let stream = rgba8_stream(image@);
                match res {
                    Ok(png) => encoded(image@, stream) == Ok::<PngImageView, ImageError>(png@),
                    Err(e) => encoded(image@, stream) == Err::<PngImageView, ImageError>(e),
                }
            }),
    {
        let width: u32 = image.width();
        let height: u32 = image.height();
        if !PngImage::can_encode(width, height) {
            return Err(ImageError::InvalidDimensions);
        }
        let pixels = image.bytes();
        proof {
            assert(raw_row_bound(png::ColorType::Rgba, png::BitDepth::Eight, width) == width * 4);
            assert(raw_len_bound(png::ColorType::Rgba, png::BitDepth::Eight, width, height)
                == packed_len(width, height)) by (nonlinear_arith)
                requires
                    raw_len_bound(png::ColorType::Rgba, png::BitDepth::Eight, width, height)
                        == (width as nat) * 4 * 1 * (height as nat),
                    packed_len(width, height) == (width as nat) * (height as nat) * 4,
            ;
        }
        let outcome = encode_png(
            png::ColorType::Rgba,
            png::BitDepth::Eight,
            width,
            height,
            pixels,
        );
        PngImage::from_encoder_outcome(width, height, outcome)
    }

    /// Width of the picture in pixels.
    pub fn width(&self) -> (w: u32)
        ensures
            w == self@.width,
    {
        self.width
    }

    /// Height of the picture in pixels.
    pub fn height(&self) -> (h: u32)
        ensures
            h == self@.height,
    {
        self.height
    }

    /// The bytes of the PNG stream.
    pub fn bytes(&self) -> (bytes: &Vec<u8>)
        ensures
            bytes@ == self@.bytes,
    {
        &self.bytes
    }
}

} // verus!
