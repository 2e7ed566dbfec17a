//! An image-processing service core: validates raw pixel envelopes against
//! their declared geometry, applies the requested operations in a fixed
//! order, and resamples thumbnails.

pub mod blur;
pub mod convert;
pub mod gradient;
pub mod laws;
pub mod ops;
pub mod outside;
pub mod pixel;
pub mod service;
pub mod shrink;

pub use ops::{BoxBlur, EdgeDetect, Invert, ProcessImage};
pub use pixel::{Image, ImageError, ImageType, PixelBuffer};
pub use service::{ImageParameters, ImageProcessingService, Operation, ThumbnailImage};
