//! Screen-capture images: a packed RGBA pixel buffer built from raw BGRA
//! frames, and its PNG encoding.

pub mod encoder;
pub mod error;
pub mod image;
pub mod png_image;

pub use crate::error::ImageError;
pub use crate::image::Image;
pub use crate::png_image::PngImage;
