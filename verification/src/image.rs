//! A packed RGBA image and the normalization of raw BGRA frames into it.

use vstd::prelude::*;
use vstd::arithmetic::div_mod::{
    lemma_fundamental_div_mod, lemma_fundamental_div_mod_converse, lemma_mod_pos_bound,
};
use crate::error::ImageError;

verus! {

/// Bytes that one pixel occupies, in the source frame as in the packed buffer.
pub const BYTES_PER_PIXEL: usize = 4;

/// The alpha value of a fully opaque pixel.
pub const OPAQUE: u8 = 255;

/// Number of bytes in a packed buffer of `width` by `height` pixels.
pub open spec fn packed_len(width: u32, height: u32) -> nat {
    (width as nat) * (height as nat) * 4
}

/// Whether every pixel of a `width` by `height` frame lies inside a buffer of
/// `len` bytes whose rows start `bytes_per_row` bytes apart: a row of pixels
/// is no longer than the distance between rows, and the last row's pixels
/// end inside the buffer. Padding behind the last row's pixels need not be
/// there, and a frame without pixels fits any buffer.
pub open spec fn frame_fits(len: nat, width: u32, height: u32, bytes_per_row: usize) -> bool {
    width == 0 || height == 0 || {
        &&& width * 4 <= bytes_per_row
        &&& (height - 1) * bytes_per_row + width * 4 <= len
    }
}

/// Byte `i` of row `row` in a raw frame whose rows are `bytes_per_row` apart.
pub open spec fn row_byte(frame: Seq<u8>, bytes_per_row: usize, row: int, i: int) -> u8 {
    frame[row * bytes_per_row + i]
}

/// Offset in the raw frame at which the pixel in row `row`, column `col` starts.
/// Whatever a row holds past its last pixel is skipped.
pub open spec fn source_offset(bytes_per_row: usize, row: int, col: int) -> int {
    row * bytes_per_row + col * 4
}

/// Byte `k` of the packed RGBA form of the raw BGRA frame `bgra`: blue and
/// red change places, green stays, and alpha is opaque whatever the frame held.
pub open spec fn normalized_byte(bgra: Seq<u8>, width: u32, bytes_per_row: usize, k: int) -> u8 {
    let pixel = k / 4;
    let src = source_offset(bytes_per_row, pixel / (width as int), pixel % (width as int));
    let channel = k % 4;
    if channel == 0 {
        bgra[src + 2]
    } else if channel == 1 {
        bgra[src + 1]
    } else if channel == 2 {
        bgra[src]
    } else {
        OPAQUE
    }
}

/// The packed RGBA form of the raw BGRA frame `bgra`.
pub open spec fn normalized(bgra: Seq<u8>, width: u32, height: u32, bytes_per_row: usize) -> Seq<u8> {
    Seq::new(packed_len(width, height), |k: int| normalized_byte(bgra, width, bytes_per_row, k))
}

/// What an [`Image`] stands for: its dimensions and its bytes, row by row,
/// four bytes per pixel in the order red, green, blue, alpha.
pub struct ImageView {
    pub width: u32,
    pub height: u32,
    pub pixels: Seq<u8>,
}

/// A `width` by `height` image held as tightly packed RGBA bytes.
#[derive(Debug)]
pub struct Image {
    width: u32,
    height: u32,
    bytes: Vec<u8>,
}

impl View for Image {
    type V = ImageView;

    closed spec fn view(&self) -> ImageView {
        ImageView { width: self.width, height: self.height, pixels: self.bytes@ }
    }
}

/// `width * height` of two `u32` stays below 2^64.
proof fn lemma_area_bound(width: u32, height: u32)
    ensures
        0 <= width * height <= 0xFFFF_FFFE_0000_0001,
{
    assert(0 <= width * height <= 0xFFFF_FFFF * 0xFFFF_FFFF) by (nonlinear_arith)
        requires
            0 <= width <= 0xFFFF_FFFF,
            0 <= height <= 0xFFFF_FFFF,
    ;
}

/// Byte `channel` of the pixel in row `row`, column `col` has index
/// `(row * width + col) * 4 + channel` in the packed buffer, and that index
/// leads back to the same row, column and channel.
proof fn lemma_packed_index(width: int, row: int, col: int, channel: int)
    requires
        0 <= row,
        0 <= col < width,
        0 <= channel < 4,
    ensures
        ((row * width + col) * 4 + channel) / 4 == row * width + col,
        ((row * width + col) * 4 + channel) % 4 == channel,
        (row * width + col) / width == row,
        (row * width + col) % width == col,
        0 <= row * width + col,
{
    let pixel = row * width + col;
    lemma_fundamental_div_mod_converse(pixel * 4 + channel, 4, pixel, channel);
    lemma_fundamental_div_mod_converse(pixel, width, row, col);
    assert(0 <= row * width) by (nonlinear_arith)
        requires
            0 <= row,
            0 <= width,
    ;
}

/// Byte `k` of a packed `width` by `height` buffer belongs to a pixel whose
/// row and column lie inside the image.
proof fn lemma_pixel_of_index(width: u32, height: u32, k: int)
    requires
        0 <= k < packed_len(width, height),
    ensures
        width > 0,
        0 <= (k / 4) / (width as int) < height,
        0 <= (k / 4) % (width as int) < width,
{
    if width == 0 {
        assert(width * height * 4 == 0) by (nonlinear_arith)
            requires
                width == 0,
        ;
    }
    let pixel = k / 4;
    let w = width as int;
    lemma_fundamental_div_mod(pixel, w);
    lemma_mod_pos_bound(pixel, w);
    assert(pixel < width * height);
    assert(pixel / w < height) by (nonlinear_arith)
        requires
            0 <= pixel < w * height,
            w > 0,
            pixel == w * (pixel / w) + pixel % w,
            0 <= pixel % w < w,
    ;
    assert(0 <= pixel / w) by (nonlinear_arith)
        requires
            0 <= pixel,
            w > 0,
            pixel == w * (pixel / w) + pixel % w,
            0 <= pixel % w < w,
    ;
}

/// A frame that fits is at least as long as its packed form.
proof fn lemma_packed_fits(len: nat, width: u32, height: u32, bytes_per_row: usize)
    requires
        frame_fits(len, width, height, bytes_per_row),
    ensures
        packed_len(width, height) <= len,
{
    if width == 0 || height == 0 {
        assert(width * height * 4 == 0) by (nonlinear_arith)
            requires
                width == 0 || height == 0,
        ;
    } else {
        assert(width * height * 4 <= (height - 1) * bytes_per_row + width * 4)
            by (nonlinear_arith)
            requires
                width * 4 <= bytes_per_row,
                1 <= height,
        ;
    }
}

/// Decides [`frame_fits`] without overflow.
fn fits(len: usize, width: u32, height: u32, bytes_per_row: usize) -> (b: bool)
    ensures
        b == frame_fits(len as nat, width, height, bytes_per_row),
{
    if width == 0 || height == 0 {
        return true;
    }
    let row_bytes: usize = match (width as usize).checked_mul(BYTES_PER_PIXEL) {
        Some(row_bytes) => row_bytes,
        None => { return false; },
    };
    if row_bytes > bytes_per_row {
        return false;
    }
    let last_row: usize = match bytes_per_row.checked_mul(height as usize - 1) {
        Some(last_row) => last_row,
        None => {
            assert((height - 1) * bytes_per_row == bytes_per_row * (height - 1))
                by (nonlinear_arith);
            return false;
        },
    };
    assert((height - 1) * bytes_per_row == last_row) by (nonlinear_arith)
        requires
            last_row == bytes_per_row * (height - 1),
    ;
    match last_row.checked_add(row_bytes) {
        Some(end) => end <= len,
        None => false,
    }
}

impl Image {
    /// The buffer always holds exactly four bytes for each pixel.
    #[verifier::type_invariant]
    spec fn well_formed(self) -> bool {
        self.bytes@.len() == packed_len(self.width, self.height)
    }

    /// Wraps bytes that are already packed RGBA, without changing them.
    ///
    /// Fails with `LengthMismatch` unless `bytes` holds exactly
    /// `width * height * 4` bytes.
    pub fn new(width: u32, height: u32, bytes: Vec<u8>) -> (res: Result<Image, ImageError>)
        ensures
            match res {
                Ok(image) => bytes@.len() == packed_len(width, height)
                    && image@ == (ImageView { width, height, pixels: bytes@ }),
                Err(e) => bytes@.len() != packed_len(width, height)
                    && e == ImageError::LengthMismatch,
            },
    {
        proof {
            lemma_area_bound(width, height);
        }
        let expected: u128 = (width as u128) * (height as u128) * 4;
        if bytes.len() as u128 == expected {
            Ok(Image { width, height, bytes })
        } else {
            Err(ImageError::LengthMismatch)
        }
    }

    /// Normalizes a raw BGRA frame, whose rows may be padded, into a packed
    /// and fully opaque RGBA image.
    ///
    /// Row `r` of the frame starts at byte `r * bytes_per_row`; only its first
    /// `width * 4` bytes are pixels, and what follows them is never read.
    /// Fails with `LengthMismatch` exactly when some pixel would lie outside
    /// its row or outside `bgra` (see [`frame_fits`]). A frame without pixels
    /// gives an empty image.
    pub fn from_bgra(bgra: Vec<u8>, width: u32, height: u32, bytes_per_row: usize) -> (res: Result<
        Image,
        ImageError,
    >)
        ensures
            match res {
                Ok(image) => frame_fits(bgra@.len(), width, height, bytes_per_row)
                    && image@ == (ImageView {
                    width,
                    height,
                    pixels: normalized(bgra@, width, height, bytes_per_row),
                }),
                Err(e) => !frame_fits(bgra@.len(), width, height, bytes_per_row)
                    && e == ImageError::LengthMismatch,
            },
    {
        if !fits(bgra.len(), width, height, bytes_per_row) {
            return Err(ImageError::LengthMismatch);
        }
        let columns: usize = width as usize;
        let rows: usize = height as usize;
        proof {
            lemma_packed_fits(bgra@.len(), width, height, bytes_per_row);
        }
        let mut bytes: Vec<u8> = Vec::with_capacity(columns * rows * BYTES_PER_PIXEL);
        let mut row: usize = 0;
        while row < rows
            invariant
                row <= rows,
                rows == height,
                columns == width,
                bgra@.len() <= usize::MAX,
                frame_fits(bgra@.len(), width, height, bytes_per_row),
                bytes@.len() == row * columns * 4,
                forall|k: int|
                    0 <= k < bytes@.len() ==> bytes@[k] == normalized_byte(
                        bgra@,
                        width,
                        bytes_per_row,
                        k,
                    ),
            decreases rows - row,
        {
            let mut col: usize = 0;
            while col < columns
                invariant
                    row < rows,
                    col <= columns,
                    rows == height,
                    columns == width,
                    bgra@.len() <= usize::MAX,
                    frame_fits(bgra@.len(), width, height, bytes_per_row),
                    bytes@.len() == (row * columns + col) * 4,
                    forall|k: int|
                        0 <= k < bytes@.len() ==> bytes@[k] == normalized_byte(
                            bgra@,
                            width,
                            bytes_per_row,
                            k,
                        ),
                decreases columns - col,
            {
                proof {
                    lemma_source_in_bounds(
                        bgra@.len(),
                        width,
                        height,
                        bytes_per_row,
                        row as int,
                        col as int,
                    );
                    lemma_packed_index(width as int, row as int, col as int, 0);
                    lemma_packed_index(width as int, row as int, col as int, 1);
                    lemma_packed_index(width as int, row as int, col as int, 2);
                    lemma_packed_index(width as int, row as int, col as int, 3);
                }
                let src: usize = row * bytes_per_row + col * BYTES_PER_PIXEL;
                let blue: u8 = bgra[src];
                let green: u8 = bgra[src + 1];
                let red: u8 = bgra[src + 2];
                bytes.push(red);
                bytes.push(green);
                bytes.push(blue);
                bytes.push(OPAQUE);
                col += 1;
            }
            proof {
                assert((row * columns + columns) * 4 == (row + 1) * columns * 4)
                    by (nonlinear_arith);
            }
            row += 1;
        }
        proof {
            assert(rows * columns * 4 == width * height * 4) by (nonlinear_arith)
                requires
                    rows == height,
                    columns == width,
            ;
            assert(bytes@ =~= normalized(bgra@, width, height, bytes_per_row));
        }
        Ok(Image { width, height, bytes })
    }

    /// Width in pixels.
    pub fn width(&self) -> (w: u32)
        ensures
            w == self@.width,
    {
        self.width
    }

    /// Height in pixels.
    pub fn height(&self) -> (h: u32)
        ensures
            h == self@.height,
    {
        self.height
    }

    /// The packed RGBA bytes, four for each pixel, row by row.
    pub fn bytes(&self) -> (bytes: &Vec<u8>)
        ensures
            bytes@ == self@.pixels,
            bytes@.len() == packed_len(self@.width, self@.height),
    {
        proof {
            use_type_invariant(self);
        }
        &self.bytes
    }
}

/// A frame of the documented geometry fits: rows of `bytes_per_row` bytes
/// that hold `width` pixels each, in a buffer that holds `height` such rows.
pub proof fn lemma_declared_geometry_fits(len: nat, width: u32, height: u32, bytes_per_row: usize)
    requires
        width * 4 <= bytes_per_row,
        bytes_per_row * height <= len,
    ensures
        frame_fits(len, width, height, bytes_per_row),
{
    if height > 0 {
        assert((height - 1) * bytes_per_row + bytes_per_row == bytes_per_row * height)
            by (nonlinear_arith);
    }
}

/// In a frame that fits, the four bytes of every pixel lie inside the
/// buffer, and inside the pixel's own row.
pub proof fn lemma_source_in_bounds(
    len: nat,
    width: u32,
    height: u32,
    bytes_per_row: usize,
    row: int,
    col: int,
)
    requires
        frame_fits(len, width, height, bytes_per_row),
        0 <= row < height,
        0 <= col < width,
    ensures
        0 <= row * bytes_per_row <= source_offset(bytes_per_row, row, col),
        source_offset(bytes_per_row, row, col) + 4 <= row * bytes_per_row + width * 4,
        source_offset(bytes_per_row, row, col) + 4 <= len,
{
    assert(0 <= row * bytes_per_row <= (height - 1) * bytes_per_row) by (nonlinear_arith)
        requires
            0 <= row <= height - 1,
            0 <= bytes_per_row,
    ;
}

/// Channel reorder: the pixel in row `row`, column `col` of the normalized
/// image is `[R, G, B, 255]` where the frame holds `[B, G, R, A]` at that
/// pixel's place, whatever `A` is.
pub proof fn lemma_normalized_pixel(
    bgra: Seq<u8>,
    width: u32,
    height: u32,
    bytes_per_row: usize,
    row: int,
    col: int,
)
    requires
        0 <= row < height,
        0 <= col < width,
    ensures
        ({
            let dst = (row * width + col) * 4;
            let src = source_offset(bytes_per_row, row, col);
            let pixels = normalized(bgra, width, height, bytes_per_row);
            &&& 0 <= dst
            &&& dst + 4 <= pixels.len()
            &&& pixels[dst] == bgra[src + 2]
            &&& pixels[dst + 1] == bgra[src + 1]
            &&& pixels[dst + 2] == bgra[src]
            &&& pixels[dst + 3] == OPAQUE
        }),
{
    lemma_packed_index(width as int, row, col, 0);
    lemma_packed_index(width as int, row, col, 1);
    lemma_packed_index(width as int, row, col, 2);
    lemma_packed_index(width as int, row, col, 3);
    assert((row * width + col + 1) * 4 <= width * height * 4) by (nonlinear_arith)
        requires
            0 <= row < height,
            0 <= col < width,
    ;
}

/// Stride independence: two frames of the same geometry that agree on the
/// first `width * 4` bytes of every row normalize to the same pixels, so
/// nothing that lies in a row's padding reaches the image.
pub proof fn lemma_padding_ignored(
    first: Seq<u8>,
    second: Seq<u8>,
    width: u32,
    height: u32,
    bytes_per_row: usize,
)
    requires
        forall|row: int, i: int|
            0 <= row < height && 0 <= i < width * 4 ==> #[trigger] row_byte(
                first,
                bytes_per_row,
                row,
                i,
            ) == row_byte(second, bytes_per_row, row, i),
    ensures
        normalized(first, width, height, bytes_per_row) == normalized(
            second,
            width,
            height,
            bytes_per_row,
        ),
{
    let a = normalized(first, width, height, bytes_per_row);
    let b = normalized(second, width, height, bytes_per_row);
    assert forall|k: int| 0 <= k < a.len() implies a[k] == b[k] by {
        let row = (k / 4) / (width as int);
        let col = (k / 4) % (width as int);
        lemma_pixel_of_index(width, height, k);
        assert(row_byte(first, bytes_per_row, row, col * 4) == row_byte(
            second,
            bytes_per_row,
            row,
            col * 4,
        ));
        assert(row_byte(first, bytes_per_row, row, col * 4 + 1) == row_byte(
            second,
            bytes_per_row,
            row,
            col * 4 + 1,
        ));
        assert(row_byte(first, bytes_per_row, row, col * 4 + 2) == row_byte(
            second,
            bytes_per_row,
            row,
            col * 4 + 2,
        ));
    }
    assert(a =~= b);
}

/// A frame without pixels normalizes to an empty buffer.
pub proof fn lemma_empty_frame(bgra: Seq<u8>, width: u32, height: u32, bytes_per_row: usize)
    requires
        width == 0 || height == 0,
    ensures
        normalized(bgra, width, height, bytes_per_row).len() == 0,
{
    assert(width * height * 4 == 0) by (nonlinear_arith)
        requires
            width == 0 || height == 0,
    ;
}

} // verus!
