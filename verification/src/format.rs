//! Normalisation of stride-padded raw pixels into tightly packed RGBA.

use vstd::prelude::*;
use crate::error::DisplayError;
use crate::raster::{Raster, raster_bytes, raster_extent, raster_into_raw, raster_new,
    raster_put_pixel, sample_index};

verus! {

/// Little-endian 32-bit layout with alpha: bytes in memory are B, G, R, A.
pub const PIXMAN_A8R8G8B8: u32 = 0x2002_8888;

/// Little-endian 32-bit layout without alpha: bytes in memory are B, G, R and
/// one unused byte. Every pixel is opaque.
pub const PIXMAN_X8R8G8B8: u32 = 0x2002_0888;

/// The pixel formats that the normaliser understands.
pub open spec fn format_supported(format: u32) -> bool {
    format == PIXMAN_A8R8G8B8 || format == PIXMAN_X8R8G8B8
}

/// Whether `len` bytes can hold `height` rows of `stride` bytes, each row
/// wide enough for `width` four-byte pixels, and the packed result is a size
/// that a vector can have.
pub open spec fn geometry_fits(len: nat, width: nat, height: nat, stride: nat) -> bool {
    &&& 4 * width <= stride
    &&& stride * height <= len
    &&& 4 * width * height <= isize::MAX
}

/// The inputs that `normalize` accepts.
pub open spec fn accepts(len: nat, width: u32, height: u32, stride: u32, format: u32) -> bool {
    format_supported(format) && geometry_fits(len, width as nat, height as nat, stride as nat)
}

/// Channel `c` (0 red, 1 green, 2 blue, 3 alpha) of the pixel at column `x`,
/// row `y`, read from raw bytes laid out in rows of `stride` bytes.
pub open spec fn source_sample(raw: Seq<u8>, stride: int, format: u32, x: int, y: int, c: int) -> u8 {
    let at = y * stride + 4 * x;
    if c == 0 {
        raw[at + 2]
    } else if c == 1 {
        raw[at + 1]
    } else if c == 2 {
        raw[at]
    } else if format == PIXMAN_A8R8G8B8 {
        raw[at + 3]
    } else {
        255u8
    }
}

/// `out` is the packed RGBA form of `raw`: four bytes per pixel, no padding
/// between rows, each sample taken from its place in `raw`.
pub open spec fn is_normalized(
    out: Seq<u8>,
    raw: Seq<u8>,
    width: int,
    height: int,
    stride: int,
    format: u32,
) -> bool {
    &&& out.len() == 4 * width * height
    &&& forall|x: int, y: int, c: int|
        0 <= x < width && 0 <= y < height && 0 <= c < 4 ==> out[sample_index(width, x, y, c)]
            == #[trigger] source_sample(raw, stride, format, x, y, c)
}

/// The packed RGBA form of `raw`, sample by sample: sample `i` is channel
/// `i % 4` of pixel `i / 4`, and pixels are stored row after row.
pub open spec fn normalized_bytes(raw: Seq<u8>, width: int, height: int, stride: int, format: u32) -> Seq<
    u8,
> {
    Seq::new(
        (4 * width * height) as nat,
        |i: int| source_sample(raw, stride, format, (i / 4) % width, (i / 4) / width, i % 4),
    )
}

/// Row-major positions: pixel `(x, y)` of a `width` by `height` grid is at
/// `y * width + x`, and that position gives `x` and `y` back.
pub proof fn lemma_row_major(width: int, height: int, x: int, y: int)
    requires
        0 <= x < width,
        0 <= y < height,
    ensures
        0 <= y * width + x < width * height,
        (y * width + x) / width == y,
        (y * width + x) % width == x,
{
    assert(0 <= y * width && y * width + width <= width * height) by (nonlinear_arith)
        requires
            0 <= y,
            y + 1 <= height,
            0 <= width,
    ;
    vstd::arithmetic::div_mod::lemma_fundamental_div_mod_converse(y * width + x, width, y, x);
}

/// Every byte that normalisation reads for an in-range pixel lies inside the
/// raw buffer, whenever the geometry fits it.
pub proof fn lemma_reads_in_bounds(len: nat, width: nat, height: nat, stride: nat, x: nat, y: nat)
    requires
        4 * width <= stride,
        stride * height <= len,
        x < width,
        y < height,
    ensures
        y * stride + 4 * x + 3 < len,
        y * stride + stride <= stride * height,
{
    assert(y * stride + stride <= stride * height) by (nonlinear_arith)
        requires
            y + 1 <= height,
    ;
}

/// Input whose rows do not fit in its data is never accepted, whatever its
/// format, and neither is input whose stride is too short for its width.
pub proof fn lemma_misfit_is_rejected(len: nat, width: u32, height: u32, stride: u32, format: u32)
    requires
        stride * height > len || 4 * width > stride,
    ensures
        !accepts(len, width, height, stride, format),
{
}

/// Samples of a packed raster lie inside it.
pub proof fn lemma_sample_index_in_range(width: int, height: int, x: int, y: int, c: int)
    requires
        0 <= x < width,
        0 <= y < height,
        0 <= c < 4,
    ensures
        0 <= sample_index(width, x, y, c) < 4 * width * height,
{
    assert(0 <= y * width && y * width + width <= width * height) by (nonlinear_arith)
        requires
            0 <= y,
            y + 1 <= height,
            0 <= width,
    ;
    assert(4 * width * height == 4 * (width * height)) by (nonlinear_arith);
}

/// Distinct samples of a packed raster are stored at distinct positions.
pub proof fn lemma_sample_index_distinct(
    width: int,
    x1: int,
    y1: int,
    c1: int,
    x2: int,
    y2: int,
    c2: int,
)
    requires
        0 <= x1 < width,
        0 <= x2 < width,
        0 <= y1,
        0 <= y2,
        0 <= c1 < 4,
        0 <= c2 < 4,
        x1 != x2 || y1 != y2 || c1 != c2,
    ensures
        sample_index(width, x1, y1, c1) != sample_index(width, x2, y2, c2),
{
    if y1 < y2 {
        assert(y1 * width + width <= y2 * width) by (nonlinear_arith)
            requires
                y1 + 1 <= y2,
                0 <= width,
        ;
    } else if y2 < y1 {
        assert(y2 * width + width <= y1 * width) by (nonlinear_arith)
            requires
                y2 + 1 <= y1,
                0 <= width,
        ;
    }
}

/// Two packed forms of the same input are the same bytes.
pub proof fn lemma_normalized_unique(
    a: Seq<u8>,
    b: Seq<u8>,
    raw: Seq<u8>,
    width: int,
    height: int,
    stride: int,
    format: u32,
)
    requires
        0 <= width,
        0 <= height,
        is_normalized(a, raw, width, height, stride, format),
        is_normalized(b, raw, width, height, stride, format),
    ensures
        a == b,
{
    assert forall|i: int| 0 <= i < a.len() implies a[i] == b[i] by {
        let p = i / 4;
        let c = i % 4;
        let y = p / width;
        let x = p % width;
        assert(width > 0) by (nonlinear_arith)
            requires
                0 <= i < 4 * width * height,
                0 <= width,
                0 <= height,
        ;
        assert(p < width * height) by (nonlinear_arith)
            requires
                i < 4 * width * height,
                p == i / 4,
        ;
        assert(p == y * width + x && 0 <= x < width && 0 <= y) by (nonlinear_arith)
            requires
                y == p / width,
                x == p % width,
                width > 0,
                0 <= p,
        ;
        assert(y < height) by (nonlinear_arith)
            requires
                p == y * width + x,
                0 <= x,
                p < width * height,
                width > 0,
        ;
        assert(i == sample_index(width, x, y, c));
        let s = source_sample(raw, stride, format, x, y, c);
        assert(a[sample_index(width, x, y, c)] == s);
        assert(b[sample_index(width, x, y, c)] == s);
    }
    assert(a =~= b);
}

/// The pointwise description and the sample-by-sample one agree: `out` is
/// the packed form of `raw` exactly when it is `normalized_bytes` of it.
pub proof fn lemma_normalized_bytes(
    out: Seq<u8>,
    raw: Seq<u8>,
    width: int,
    height: int,
    stride: int,
    format: u32,
)
    requires
        0 <= width,
        0 <= height,
    ensures
        is_normalized(out, raw, width, height, stride, format) <==> out == normalized_bytes(
            raw,
            width,
            height,
            stride,
            format,
        ),
{
    let packed = normalized_bytes(raw, width, height, stride, format);
    assert(0 <= 4 * width * height) by (nonlinear_arith)
        requires
            0 <= width,
            0 <= height,
    ;
    assert forall|x: int, y: int, c: int|
        0 <= x < width && 0 <= y < height && 0 <= c < 4 implies packed[sample_index(width, x, y, c)]
        == #[trigger] source_sample(raw, stride, format, x, y, c) by {
        lemma_sample_index_in_range(width, height, x, y, c);
        lemma_row_major(width, height, x, y);
        let i = sample_index(width, x, y, c);
        assert(i / 4 == y * width + x);
        assert(i % 4 == c);
    }
    assert(is_normalized(packed, raw, width, height, stride, format));
    if is_normalized(out, raw, width, height, stride, format) {
        lemma_normalized_unique(out, packed, raw, width, height, stride, format);
    }
}

/// Builds the packed RGBA raster of a raw frame, or rejects the frame.
pub fn normalize_raster(raw: &[u8], width: u32, height: u32, stride: u32, format: u32) -> (out:
    Result<Raster, DisplayError>)
    ensures
        out is Ok <==> accepts(raw@.len(), width, height, stride, format),
        out matches Ok(img) ==> raster_extent(img) == (width, height) && raster_bytes(img)
            == normalized_bytes(raw@, width as int, height as int, stride as int, format),
        out matches Err(e) ==> e == DisplayError::FormatError,
{
    if format != PIXMAN_A8R8G8B8 && format != PIXMAN_X8R8G8B8 {
        return Err(DisplayError::FormatError);
    }
    let w: u64 = width as u64;
    let h: u64 = height as u64;
    let s: u64 = stride as u64;
    if 4 * w > s {
        return Err(DisplayError::FormatError);
    }
    assert(s * h <= 0xffff_ffff * 0xffff_ffff) by (nonlinear_arith)
        requires
            s <= 0xffff_ffff,
            h <= 0xffff_ffff,
    ;
    assert(4 * w * h <= s * h) by (nonlinear_arith)
        requires
            4 * w <= s,
            0 <= h,
    ;
    if s * h > raw.len() as u64 || 4 * w * h > isize::MAX as u64 {
        return Err(DisplayError::FormatError);
    }
    let has_alpha = format == PIXMAN_A8R8G8B8;
    let mut img = raster_new(width, height);
    let mut y: u32 = 0;
    while y < height
        invariant
            y <= height,
            accepts(raw@.len(), width, height, stride, format),
            raw@.len() <= usize::MAX,
            has_alpha == (format == PIXMAN_A8R8G8B8),
            raster_extent(img) == (width, height),
            raster_bytes(img).len() == 4 * width * height,
            forall|xx: int, yy: int, c: int|
                0 <= xx < width && 0 <= yy < y && 0 <= c < 4 ==> raster_bytes(img)[sample_index(
                    width as int,
                    xx,
                    yy,
                    c,
                )] == #[trigger] source_sample(raw@, stride as int, format, xx, yy, c),
        decreases height - y,
    {
        let mut x: u32 = 0;
        while x < width
            invariant
                x <= width,
                y < height,
                accepts(raw@.len(), width, height, stride, format),
                raw@.len() <= usize::MAX,
                has_alpha == (format == PIXMAN_A8R8G8B8),
                raster_extent(img) == (width, height),
                raster_bytes(img).len() == 4 * width * height,
                forall|xx: int, yy: int, c: int|
                    0 <= xx < width && (0 <= yy < y || (yy == y && xx < x)) && 0 <= c < 4
                        ==> raster_bytes(img)[sample_index(width as int, xx, yy, c)]
                        == #[trigger] source_sample(raw@, stride as int, format, xx, yy, c),
            decreases width - x,
        {
            proof {
                lemma_reads_in_bounds(
                    raw@.len(),
                    width as nat,
                    height as nat,
                    stride as nat,
                    x as nat,
                    y as nat,
                );
                assert(0 <= (y as int) * (stride as int)) by (nonlinear_arith);
                assert((y as int) * (stride as int) + 4 * x + 3 < raw@.len());
            }
            let at: usize = y as usize * stride as usize + 4 * x as usize;
            let blue = raw[at];
            let green = raw[at + 1];
            let red = raw[at + 2];
            let alpha = if has_alpha {
                raw[at + 3]
            } else {
                255u8
            };
            let ghost before = raster_bytes(img);
            raster_put_pixel(&mut img, x, y, red, green, blue, alpha);
            proof {
                let wi = width as int;
                let xi = x as int;
                let yi = y as int;
                lemma_sample_index_in_range(wi, height as int, xi, yi, 0);
                lemma_sample_index_in_range(wi, height as int, xi, yi, 3);
                assert forall|xx: int, yy: int, c: int|
                    0 <= xx < width && (0 <= yy < y || (yy == y && xx < x + 1)) && 0 <= c < 4
                    implies raster_bytes(img)[sample_index(wi, xx, yy, c)]
                    == #[trigger] source_sample(raw@, stride as int, format, xx, yy, c) by {
                    if xx == xi && yy == yi {
                    } else {
                        lemma_sample_index_distinct(wi, xx, yy, c, xi, yi, 0);
                        lemma_sample_index_distinct(wi, xx, yy, c, xi, yi, 1);
                        lemma_sample_index_distinct(wi, xx, yy, c, xi, yi, 2);
                        lemma_sample_index_distinct(wi, xx, yy, c, xi, yi, 3);
                        lemma_sample_index_in_range(wi, height as int, xx, yy, c);
                        assert(raster_bytes(img)[sample_index(wi, xx, yy, c)]
                            == before[sample_index(wi, xx, yy, c)]);
                    }
                }
            }
            x = x + 1;
        }
        y = y + 1;
    }
    proof {
        lemma_normalized_bytes(
            raster_bytes(img),
            raw@,
            width as int,
            height as int,
            stride as int,
            format,
        );
    }
    Ok(img)
}

/// Converts raw pixel rows of a declared format into a packed RGBA buffer.
///
/// Rows are `stride` bytes apart, which may be more than `4 * width`. The
/// result has no padding and its channels are in the order red, green, blue,
/// alpha. Input whose rows do not fit in `raw`, whose stride is too short for
/// its width, or whose format is not known is rejected with `FormatError`.
pub fn normalize(raw: &[u8], width: u32, height: u32, stride: u32, format: u32) -> (out: Result<
    Vec<u8>,
    DisplayError,
>)
    ensures
        out is Ok <==> accepts(raw@.len(), width, height, stride, format),
        out matches Ok(buffer) ==> buffer@ == normalized_bytes(
            raw@,
            width as int,
            height as int,
            stride as int,
            format,
        ),
        out matches Err(e) ==> e == DisplayError::FormatError,
{
    match normalize_raster(raw, width, height, stride, format) {
        Ok(img) => Ok(raster_into_raw(img)),
        Err(e) => Err(e),
    }
}

/// The word `0xAARRGGBB` made of four eight-bit channels.
pub open spec fn argb_word(r: u8, g: u8, b: u8, a: u8) -> u32 {
    ((a as u32) << 24) | ((r as u32) << 16) | ((g as u32) << 8) | (b as u32)
}

/// The words of a packed RGBA buffer, one per whole pixel, in order.
pub open spec fn argb_words(rgba: Seq<u8>) -> Seq<u32> {
    Seq::new(
        (rgba.len() / 4) as nat,
        |i: int| argb_word(rgba[4 * i], rgba[4 * i + 1], rgba[4 * i + 2], rgba[4 * i + 3]),
    )
}

/// Packs four channels into one `0xAARRGGBB` word.
pub fn argb(r: u8, g: u8, b: u8, a: u8) -> (word: u32)
    ensures
        word == argb_word(r, g, b, a),
{
    ((a as u32) << 24) | ((r as u32) << 16) | ((g as u32) << 8) | (b as u32)
}

/// Turns a packed RGBA buffer into `0xAARRGGBB` words, one per pixel, as
/// presentation surfaces that take 32-bit pixels expect them. Bytes after the
/// last whole pixel are ignored.
pub fn pack_argb(rgba: &[u8]) -> (words: Vec<u32>)
    ensures
        words@ == argb_words(rgba@),
{
    let count: usize = rgba.len() / 4;
    let mut words: Vec<u32> = Vec::new();
    let mut i: usize = 0;
    while i < count
        invariant
            i <= count,
            count == rgba@.len() / 4,
            rgba@.len() <= usize::MAX,
            words@ == argb_words(rgba@).take(i as int),
        decreases count - i,
    {
        let word = argb(rgba[4 * i], rgba[4 * i + 1], rgba[4 * i + 2], rgba[4 * i + 3]);
        words.push(word);
        i = i + 1;
        assert(words@ =~= argb_words(rgba@).take(i as int));
    }
    assert(words@ =~= argb_words(rgba@));
    words
}

/// Channel `c` (0 red, 1 green, 2 blue, 3 alpha) of an `0xAARRGGBB` word.
pub open spec fn word_channel(word: u32, c: int) -> u8 {
    if c == 0 {
        ((word >> 16) & 0xff) as u8
    } else if c == 1 {
        ((word >> 8) & 0xff) as u8
    } else if c == 2 {
        (word & 0xff) as u8
    } else {
        ((word >> 24) & 0xff) as u8
    }
}

/// The packed RGBA bytes of a run of `0xAARRGGBB` words.
pub open spec fn rgba_of_words(words: Seq<u32>) -> Seq<u8> {
    Seq::new((4 * words.len()) as nat, |i: int| word_channel(words[i / 4], i % 4))
}

/// Turns `0xAARRGGBB` words back into packed RGBA bytes, four per word, for
/// surfaces that take bytes.
pub fn unpack_argb(words: &[u32]) -> (rgba: Vec<u8>)
    ensures
        rgba@ == rgba_of_words(words@),
{
    let mut rgba: Vec<u8> = Vec::new();
    let mut i: usize = 0;
    while i < words.len()
        invariant
            i <= words@.len(),
            rgba@ == rgba_of_words(words@).take(4 * i),
        decreases words@.len() - i,
    {
        let word = words[i];
        assert(((word >> 16) & 0xff) <= 0xff && ((word >> 8) & 0xff) <= 0xff && (word & 0xff) <= 0xff
            && ((word >> 24) & 0xff) <= 0xff) by (bit_vector);
        rgba.push(((word >> 16) & 0xff) as u8);
        rgba.push(((word >> 8) & 0xff) as u8);
        rgba.push((word & 0xff) as u8);
        rgba.push(((word >> 24) & 0xff) as u8);
        i = i + 1;
        assert(rgba@ =~= rgba_of_words(words@).take(4 * i));
    }
    assert(rgba@ =~= rgba_of_words(words@));
    rgba
}

} // verus!
