//! The ways in which building or encoding an image can fail.

use vstd::prelude::*;

verus! {

/// Why an image could not be built or encoded.
#[derive(Debug, Clone, Copy, PartialEq, Eq, Structural)]
pub enum ImageError {
    /// The byte buffer does not have the length that the declared geometry asks for.
    LengthMismatch,
    /// The width or the height is zero, which a PNG cannot express.
    InvalidDimensions,
    /// The encoder failed while writing the header, the pixel data or the end of the stream.
    EncodeIoFailure,
}

} // verus!
