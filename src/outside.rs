use vstd::prelude::*;

verus! {

/// The gradient image that the Sobel operator makes of an RGBA image.
pub uninterp spec fn sobel_of(width: u32, height: u32, rgba: Seq<u8>) -> Seq<u8>;

/// The thumbnail that the image crate resamples from an RGBA image.
pub uninterp spec fn thumbnail_of(
    width: u32,
    height: u32,
    rgba: Seq<u8>,
    new_width: u32,
    new_height: u32,
) -> Seq<u8>;

/// Tallest image the Sobel filter takes: it computes `100 * row` in `u32`
/// to report its progress, which overflows beyond this height.
pub const SOBEL_MAX_HEIGHT: u32 = 42949674;

/// Largest block of source pixels that the thumbnail resampler can average:
/// it adds the block's bytes and half the block size in a `u32`, so
/// `255 * n + n / 2` must fit.
pub const THUMBNAIL_MAX_BLOCK: u64 = 16810048;

/// Whether every block that the resampler averages, shrinking `width` by
/// `height` to `new_width` by `new_height`, stays within
/// `THUMBNAIL_MAX_BLOCK` pixels. A block spans the ceiling difference of two
/// `f32` window edges; with the rounding of the ratio and of the edges, its
/// width is below `width / new_width + width / 2^20 + 4`, and so its height.
pub open spec fn block_fits(width: u32, height: u32, new_width: u32, new_height: u32) -> bool {
    &&& new_width > 0
    &&& new_height > 0
    &&& (width / new_width + width / 1048576 + 4) * (height / new_height + height / 1048576 + 4)
        <= THUMBNAIL_MAX_BLOCK
}

/// Relies on `image_processing::filters::edge_detection::sobel`, which returns
/// an RGBA image of the same dimensions holding the gradient magnitude.
/// That function also prints a progress line to standard output for each row.
#[verifier::external_body]
pub(crate) fn sobel_gradient(width: u32, height: u32, rgba: Vec<u8>) -> (r: Vec<u8>)
    requires
        width > 0,
        0 < height <= SOBEL_MAX_HEIGHT,
        rgba@.len() == width * height * 4,
    ensures
        r@ == sobel_of(width, height, rgba@),
        r@.len() == width * height * 4,
{
    let img: image::RgbaImage = image::ImageBuffer::from_vec(width, height, rgba).unwrap();
    let gradient = image_processing::filters::edge_detection::sobel(
        image::DynamicImage::ImageRgba8(img),
    );
    gradient.into_rgba8().into_vec()
}

/// Relies on `image::imageops::thumbnail`, which resamples an RGBA image to
/// the new dimensions and returns it as RGBA of those dimensions.
#[verifier::external_body]
pub(crate) fn thumbnail_rgba(
    width: u32,
    height: u32,
    rgba: Vec<u8>,
    new_width: u32,
    new_height: u32,
) -> (r: Vec<u8>)
    requires
        rgba@.len() == width * height * 4,
        block_fits(width, height, new_width, new_height),
        new_width <= width,
        new_height <= height,
    ensures
        r@ == thumbnail_of(width, height, rgba@, new_width, new_height),
        r@.len() == new_width * new_height * 4,
{
    let img: image::RgbaImage = image::ImageBuffer::from_vec(width, height, rgba).unwrap();
    image::imageops::thumbnail(&img, new_width, new_height).into_vec()
}

} // verus!
