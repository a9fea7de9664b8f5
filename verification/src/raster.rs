//! The RGBA raster that normalised pixels are assembled in.
//!
//! A `Raster` holds an `image::RgbaImage`. Verus does not look inside it:
//! its contents and its extent are named here, and each operation used by
//! the crate is a thin call whose contract is taken on trust from the
//! `image` crate's source.

use vstd::prelude::*;

verus! {

/// An RGBA raster of eight-bit samples, stored by the `image` crate.
#[verifier::external_body]
pub struct Raster {
    inner: image::RgbaImage,
}

/// The samples of a raster in storage order: four bytes per pixel, rows from
/// top to bottom, pixels from left to right.
pub uninterp spec fn raster_bytes(img: Raster) -> Seq<u8>;

/// The width and height, in pixels, that a raster was made with.
pub uninterp spec fn raster_extent(img: Raster) -> (u32, u32);

/// Position in storage of channel `c` of the pixel at column `x`, row `y` of
/// a raster `width` pixels wide.
pub open spec fn sample_index(width: int, x: int, y: int, c: int) -> int {
    4 * (y * width + x) + c
}

/// Calls `image::ImageBuffer::new`, which allocates a zeroed sample vector of
/// four bytes per pixel and records the extent. It multiplies four by the
/// width and then by the height, and panics when either product does not
/// fit in `usize` or the vector cannot be that long; the precondition rules
/// all of that out.
#[verifier::external_body]
pub(crate) fn raster_new(width: u32, height: u32) -> (img: Raster)
    requires
        4 * width <= usize::MAX,
        4 * width * height <= isize::MAX,
    ensures
        raster_extent(img) == (width, height),
        raster_bytes(img) == Seq::new((4 * width * height) as nat, |i: int| 0u8),
{
    Raster { inner: image::ImageBuffer::new(width, height) }
}

/// Calls `image::ImageBuffer::put_pixel`, which overwrites the four samples
/// of the pixel at `(x, y)` with `r`, `g`, `b`, `a` and nothing else. It
/// panics outside the extent, which the precondition rules out.
#[verifier::external_body]
pub(crate) fn raster_put_pixel(img: &mut Raster, x: u32, y: u32, r: u8, g: u8, b: u8, a: u8)
    requires
        x < raster_extent(*old(img)).0,
        y < raster_extent(*old(img)).1,
    ensures
        raster_extent(*final(img)) == raster_extent(*old(img)),
        raster_bytes(*final(img)) == raster_bytes(*old(img))
            .update(sample_index(raster_extent(*old(img)).0 as int, x as int, y as int, 0), r)
            .update(sample_index(raster_extent(*old(img)).0 as int, x as int, y as int, 1), g)
            .update(sample_index(raster_extent(*old(img)).0 as int, x as int, y as int, 2), b)
            .update(sample_index(raster_extent(*old(img)).0 as int, x as int, y as int, 3), a),
{
    img.inner.put_pixel(x, y, image::Rgba([r, g, b, a]));
}

/// Calls `image::ImageBuffer::into_raw`, which hands out the sample vector
/// as it is stored.
#[verifier::external_body]
pub(crate) fn raster_into_raw(img: Raster) -> (samples: Vec<u8>)
    ensures
        samples@ == raster_bytes(img),
{
    img.inner.into_raw()
}

impl Raster {
    /// Gives up the raster for its samples, in storage order.
    pub fn into_bytes(self) -> (samples: Vec<u8>)
        ensures
            samples@ == raster_bytes(self),
    {
        raster_into_raw(self)
    }
}

} // verus!
