//! Ownership of foreign buffer descriptors, and the pixels behind them.
//!
//! A foreign buffer is memory of the producer, reached through a descriptor.
//! The handle decides when its descriptor is to be closed; closing it is a
//! system call that the caller makes with what `release` hands out.

use vstd::prelude::*;
use crate::error::DisplayError;
use crate::format::{argb, argb_word, lemma_reads_in_bounds, lemma_row_major};

verus! {

/// An owned duplicate of a producer's buffer descriptor, with the geometry
/// of the buffer behind it. A negative `fd` means that no descriptor is
/// owned, either because duplication failed or because it was given up.
#[derive(Debug)]
pub struct ScanoutDMABUF {
    pub fd: i32,
    pub width: u32,
    pub height: u32,
    pub stride: u32,
    pub fourcc: u32,
    pub modifier: u64,
    pub y0_top: bool,
}

/// The pixel at column `x`, row `y` of a foreign buffer whose rows are
/// `stride` bytes apart and whose bytes are in the order red, green, blue,
/// alpha.
pub open spec fn foreign_pixel(buffer: Seq<u8>, stride: int, x: int, y: int) -> u32 {
    let at = y * stride + 4 * x;
    argb_word(buffer[at], buffer[at + 1], buffer[at + 2], buffer[at + 3])
}

impl ScanoutDMABUF {
    /// Whether the handle still owns a descriptor.
    pub open spec fn owns_descriptor(&self) -> bool {
        self.fd >= 0
    }

    /// Size in bytes of the region behind the descriptor.
    pub open spec fn region_len(&self) -> nat {
        (self.stride * self.height) as nat
    }

    /// The handle with its descriptor given up.
    pub open spec fn released(self) -> ScanoutDMABUF {
        ScanoutDMABUF { fd: -1i32, ..self }
    }

    /// The descriptor that must be closed when the handle is released now.
    pub open spec fn closing(self) -> Option<i32> {
        if self.fd >= 0 {
            Some(self.fd)
        } else {
            None
        }
    }

    /// Gives up the descriptor. The result is the descriptor that the caller
    /// must close, once; a handle that owns none yields `None`, so releasing
    /// twice never closes twice.
    pub fn release(&mut self) -> (closing: Option<i32>)
        ensures
            closing == old(self).closing(),
            *final(self) == old(self).released(),
    {
        if self.fd >= 0 {
            let fd = self.fd;
            self.fd = -1;
            Some(fd)
        } else {
            self.fd = -1;
            None
        }
    }

    /// Hands the descriptor to the caller, who becomes responsible for
    /// closing it. The handle is consumed, so nothing else can close it.
    pub fn into_raw_fd(self) -> (fd: i32)
        ensures
            fd == self.fd,
    {
        self.fd
    }

    /// Whether `len` bytes hold the whole region: every row is wide enough
    /// for its pixels and all rows lie inside the bytes.
    pub open spec fn region_fits(&self, len: nat) -> bool {
        4 * self.width <= self.stride && self.stride * self.height <= len
    }

    /// The pixels of a copy of the mapped region, as `0xAARRGGBB` words.
    pub open spec fn spec_pixel_buffer(&self, buffer: Seq<u8>) -> Seq<u32> {
        Seq::new(
            (self.width * self.height) as nat,
            |i: int|
                foreign_pixel(
                    buffer,
                    self.stride as int,
                    i % (self.width as int),
                    i / (self.width as int),
                ),
        )
    }

    /// Converts a copy of the mapped region into `0xAARRGGBB` words, one per
    /// pixel, rows from top to bottom. A copy that is shorter than
    /// `stride * height` bytes, or a stride that is shorter than a row of
    /// pixels, is rejected with `FormatError`; no byte is read then.
    pub fn to_pixel_buffer(&self, buffer: &[u8]) -> (out: Result<Vec<u32>, DisplayError>)
        ensures
            out is Ok <==> 4 * self.width <= self.stride && self.stride * self.height
                <= buffer@.len(),
            out matches Ok(pixels) ==> pixels@ == self.spec_pixel_buffer(buffer@),
            out matches Err(e) ==> e == DisplayError::FormatError,
    {
        let width = self.width;
        let height = self.height;
        let stride: u64 = self.stride as u64;
        assert(stride * height <= 0xffff_ffff * 0xffff_ffff) by (nonlinear_arith)
            requires
                stride <= 0xffff_ffff,
                height <= 0xffff_ffff,
        ;
        if 4 * (width as u64) > stride || stride * (height as u64) > buffer.len() as u64 {
            return Err(DisplayError::FormatError);
        }
        let mut pixels: Vec<u32> = Vec::new();
        let mut y: u32 = 0;
        while y < height
            invariant
                y <= height,
                width == self.width,
                height == self.height,
                stride == self.stride,
                self.region_fits(buffer@.len()),
                buffer@.len() <= usize::MAX,
                pixels@ == self.spec_pixel_buffer(buffer@).take(y * width),
            decreases height - y,
        {
            let mut x: u32 = 0;
            while x < width
                invariant
                    x <= width,
                    y < height,
                    width == self.width,
                    height == self.height,
                    stride == self.stride,
                    self.region_fits(buffer@.len()),
                    buffer@.len() <= usize::MAX,
                    pixels@ == self.spec_pixel_buffer(buffer@).take(y * width + x),
                decreases width - x,
            {
                proof {
                    lemma_reads_in_bounds(
                        buffer@.len(),
                        width as nat,
                        height as nat,
                        stride as nat,
                        x as nat,
                        y as nat,
                    );
                    assert(0 <= (y as int) * (stride as int)) by (nonlinear_arith);
                    assert((y as int) * (stride as int) + 4 * x + 3 < buffer@.len());
                }
                let at: usize = y as usize * self.stride as usize + 4 * x as usize;
                let pixel = argb(buffer[at], buffer[at + 1], buffer[at + 2], buffer[at + 3]);
                pixels.push(pixel);
                proof {
                    lemma_row_major(width as int, height as int, x as int, y as int);
                    let i = y * width + x;
                    let all = self.spec_pixel_buffer(buffer@);
                    assert(all[i] == pixel);
                    assert(pixels@ =~= all.take(i + 1));
                }
                x = x + 1;
            }
            assert((y + 1) * width == y * width + width) by (nonlinear_arith);
            y = y + 1;
        }
        assert(height * width == width * height) by (nonlinear_arith);
        assert(pixels@ =~= self.spec_pixel_buffer(buffer@));
        Ok(pixels)
    }
}

/// Releasing a handle yields a descriptor to close exactly when the handle
/// owns one, and whatever is released afterwards yields none: over the life
/// of a handle its descriptor is closed once, never twice and never not at
/// all.
pub proof fn lemma_descriptor_closed_once(handle: ScanoutDMABUF)
    ensures
        handle.closing() is Some <==> handle.owns_descriptor(),
        handle.owns_descriptor() ==> handle.closing() == Some(handle.fd),
        !handle.released().owns_descriptor(),
        handle.released().closing() is None,
        handle.released().released() == handle.released(),
{
}

} // verus!
