//! The notifications a display producer sends, as plain values.

use vstd::prelude::*;
use crate::error::DisplayError;
use crate::format::{accepts, argb_words, normalize, normalize_raster, normalized_bytes, pack_argb};
use crate::raster::{Raster, raster_bytes, raster_extent};

verus! {

/// A full replacement frame: `height` rows of `stride` bytes each.
#[derive(Debug)]
pub struct Scanout {
    pub width: u32,
    pub height: u32,
    pub stride: u32,
    pub pixman_format: u32,
    pub data: Vec<u8>,
}

/// A refresh of the rectangle at `(x, y)` of the last full frame.
#[derive(Debug)]
pub struct Update {
    pub x: i32,
    pub y: i32,
    pub width: i32,
    pub height: i32,
    pub stride: u32,
    pub pixman_format: u32,
    pub data: Vec<u8>,
}

/// A full frame offered through a shared-memory mapping handle.
#[derive(Debug)]
pub struct ScanoutMap {
    pub handle: u64,
    pub offset: u32,
    pub width: u32,
    pub height: u32,
    pub stride: u32,
    pub format: u32,
}

/// A changed rectangle of a frame offered through a shared-memory mapping.
#[derive(Debug, Copy, Clone)]
pub struct UpdateMap {
    pub x: i32,
    pub y: i32,
    pub w: i32,
    pub h: i32,
}

/// A cursor image with its hotspot.
#[derive(Debug)]
pub struct Cursor {
    pub width: i32,
    pub height: i32,
    pub hot_x: i32,
    pub hot_y: i32,
    pub data: Vec<u8>,
}

/// Pointer position and visibility.
#[derive(Debug, Copy, Clone)]
pub struct MouseSet {
    pub x: i32,
    pub y: i32,
    pub on: i32,
}

/// A changed rectangle of the foreign buffer delivered last. It carries no
/// bytes: the consumer reads the buffer again.
#[derive(Debug, Copy, Clone)]
pub struct UpdateDMABUF {
    pub x: i32,
    pub y: i32,
    pub w: i32,
    pub h: i32,
}

impl Scanout {
    /// The frame's rows fit in its data and its format is known.
    pub open spec fn well_formed(&self) -> bool {
        accepts(self.data@.len(), self.width, self.height, self.stride, self.pixman_format)
    }

    /// The frame's pixels as packed RGBA.
    pub open spec fn rgba(&self) -> Seq<u8> {
        normalized_bytes(
            self.data@,
            self.width as int,
            self.height as int,
            self.stride as int,
            self.pixman_format,
        )
    }

    /// The frame as a packed RGBA raster. A frame that is not well formed is
    /// rejected with `FormatError`.
    pub fn to_image(&self) -> (out: Result<Raster, DisplayError>)
        ensures
            out is Ok <==> self.well_formed(),
            out matches Ok(img) ==> raster_extent(img) == (self.width, self.height)
                && raster_bytes(img) == self.rgba(),
            out matches Err(e) ==> e == DisplayError::FormatError,
    {
        normalize_raster(
            self.data.as_slice(),
            self.width,
            self.height,
            self.stride,
            self.pixman_format,
        )
    }

    /// The frame as `0xAARRGGBB` words, one per pixel, rows from top to
    /// bottom. A frame that is not well formed is rejected with `FormatError`.
    pub fn to_argb_words(&self) -> (out: Result<Vec<u32>, DisplayError>)
        ensures
            out is Ok <==> self.well_formed(),
            out matches Ok(words) ==> words@ == argb_words(self.rgba()),
            out matches Err(e) ==> e == DisplayError::FormatError,
    {
        match normalize(
            self.data.as_slice(),
            self.width,
            self.height,
            self.stride,
            self.pixman_format,
        ) {
            Ok(rgba) => Ok(pack_argb(rgba.as_slice())),
            Err(e) => Err(e),
        }
    }
}

impl Update {
    /// The rectangle's pixels as packed RGBA.
    pub open spec fn rgba(&self) -> Seq<u8> {
        normalized_bytes(
            self.data@,
            self.width as int,
            self.height as int,
            self.stride as int,
            self.pixman_format,
        )
    }

    /// The rectangle has no negative extent, its rows fit in its data and
    /// its format is known.
    pub open spec fn well_formed(&self) -> bool {
        &&& self.width >= 0
        &&& self.height >= 0
        &&& accepts(
            self.data@.len(),
            self.width as u32,
            self.height as u32,
            self.stride,
            self.pixman_format,
        )
    }
}

} // verus!
