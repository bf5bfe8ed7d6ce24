//! The boundary to the `png` crate, which does the actual PNG encoding.
//!
//! Nothing in this file is proved: the contracts below are taken on trust
//! from the `png` crate's source.

use vstd::prelude::*;

verus! {

/// `png::ColorType`, the samples that make up one pixel.
#[verifier::external_type_specification]
pub struct ExColorType(png::ColorType);

/// `png::BitDepth`, the number of bits in one sample.
#[verifier::external_type_specification]
pub struct ExBitDepth(png::BitDepth);

/// `png::EncodingError`, the error that the `png` crate's encoder reports.
/// It is carried through as an opaque value.
#[verifier::external_type_specification]
#[verifier::external_body]
pub struct ExEncodingError(png::EncodingError);

/// Samples in one pixel, as `png::ColorType::samples` counts them.
pub open spec fn samples_per_pixel(color: png::ColorType) -> nat {
    match color {
        png::ColorType::Grayscale => 1,
        png::ColorType::Indexed => 1,
        png::ColorType::GrayscaleAlpha => 2,
        png::ColorType::Rgb => 3,
        png::ColorType::Rgba => 4,
    }
}

/// Whole bytes that hold one sample: two at sixteen bits, else one. Samples
/// of fewer than eight bits share a byte, so for them this is an upper bound.
pub open spec fn bytes_per_sample(depth: png::BitDepth) -> nat {
    match depth {
        png::BitDepth::Sixteen => 2,
        _ => 1,
    }
}

/// An upper bound on the number of bytes in one row of `width` pixels, as
/// the encoder counts them; exact where a sample takes whole bytes.
pub open spec fn raw_row_bound(color: png::ColorType, depth: png::BitDepth, width: u32) -> nat {
    (width as nat) * samples_per_pixel(color) * bytes_per_sample(depth)
}

/// An upper bound on the number of bytes that the encoder expects for a
/// picture of `width` by `height` pixels; exact where a sample takes whole
/// bytes.
pub open spec fn raw_len_bound(
    color: png::ColorType,
    depth: png::BitDepth,
    width: u32,
    height: u32,
) -> nat {
    raw_row_bound(color, depth, width) * (height as nat)
}

/// The outcome of encoding `data` as a single-frame PNG of `width` by
/// `height` pixels with the given color type and bit depth, as `png::Encoder`
/// and `png::Writer` do it when nothing else is set (fast compression, the
/// `Sub` filter): the bytes of the whole stream, or `None` where the encoder
/// reports an error.
pub uninterp spec fn png_stream(
    color: png::ColorType,
    depth: png::BitDepth,
    width: u32,
    height: u32,
    data: Seq<u8>,
) -> Option<Seq<u8>>;

/// Runs the `png` crate's encoder on an in-memory sink: `png::Encoder::new`,
/// `set_color`, `set_depth`, `write_header`, then
/// `Writer::write_image_data` and `Writer::finish`.
///
/// The `requires` keeps the encoder's arithmetic in range, so that the call
/// returns:
/// - each row, with a filter byte in front of it, goes to
///   `fdeflate::Compressor::write_data` in one call, which counts a run of
///   zero bytes in a `u32`: a row is shorter than `u32::MAX` bytes;
/// - the encoder computes in `usize` the length of a row plus one, that of
///   all rows, that of all rows with their filter bytes, and from the last
///   the size of the stream were it stored uncompressed, which is larger by
///   less than one part in ten thousand and some 65 600 bytes: all rows with
///   their filter bytes take at most `isize::MAX` bytes.
///
/// The `ensures` claims two things. The encoder is deterministic: whether
/// it succeeds, and the stream it writes, depend on the arguments alone. And
/// it succeeds wherever none of its own checks fails: `Writer::init` refuses
/// a zero width or height and a bit depth that the color type does not
/// allow, `write_image_data` refuses `Indexed` without a palette and data of
/// another length than all rows together; past those it fails only where
/// writing to the sink does, and the sink is a `Vec`. With samples of whole
/// bytes every color type but `Indexed` goes with the depth, and the length
/// asked for is `raw_len_bound`.
#[verifier::external_body]
pub(crate) fn encode_png(
    color: png::ColorType,
    depth: png::BitDepth,
    width: u32,
    height: u32,
    data: &Vec<u8>,
) -> (res: Result<Vec<u8>, png::EncodingError>)
    requires
        raw_row_bound(color, depth, width) < u32::MAX,
        raw_len_bound(color, depth, width, height) + height <= isize::MAX,
    ensures
        match res {
            Ok(stream) => png_stream(color, depth, width, height, data@) == Some(stream@),
            Err(_) => png_stream(color, depth, width, height, data@) is None,
        },
        ({
            &&& color != png::ColorType::Indexed
            &&& (depth == png::BitDepth::Eight || depth == png::BitDepth::Sixteen)
            &&& width > 0
            &&& height > 0
            &&& data@.len() == raw_len_bound(color, depth, width, height)
        }) ==> res is Ok,
{
    let mut stream = Vec::new();
    let mut encoder = png::Encoder::new(&mut stream, width, height);
    encoder.set_color(color);
    encoder.set_depth(depth);
    let mut writer = encoder.write_header()?;
    writer.write_image_data(data)?;
    writer.finish()?;
    Ok(stream)
}

} // verus!
