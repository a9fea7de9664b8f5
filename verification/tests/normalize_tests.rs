use qemu_display::dmabuf::ScanoutDMABUF;
use qemu_display::error::DisplayError;
use qemu_display::format::{
    argb, normalize, normalize_raster, pack_argb, unpack_argb, PIXMAN_A8R8G8B8, PIXMAN_X8R8G8B8,
};
use qemu_display::frames::Scanout;

#[test]
fn white_frame_normalizes_to_eight_opaque_white_pixels() {
    let raw = vec![0xFFu8; 64];
    let out = normalize(&raw, 4, 2, 16, PIXMAN_A8R8G8B8).unwrap();
    assert_eq!(out, vec![0xFFu8; 32]);
}

#[test]
fn channels_are_reordered_to_rgba() {
    // one pixel, bytes in memory B, G, R, A
    let raw = vec![0x10u8, 0x20, 0x30, 0x40];
    let out = normalize(&raw, 1, 1, 4, PIXMAN_A8R8G8B8).unwrap();
    assert_eq!(out, vec![0x30u8, 0x20, 0x10, 0x40]);
}

#[test]
fn format_without_alpha_is_opaque() {
    let raw = vec![0x10u8, 0x20, 0x30, 0x00];
    let out = normalize(&raw, 1, 1, 4, PIXMAN_X8R8G8B8).unwrap();
    assert_eq!(out, vec![0x30u8, 0x20, 0x10, 0xFF]);
}

#[test]
fn row_padding_is_skipped() {
    // 2 x 2 pixels, stride 12: four bytes of padding after each row
    let raw = vec![
        1u8, 2, 3, 4, 5, 6, 7, 8, 0xEE, 0xEE, 0xEE, 0xEE,
        9, 10, 11, 12, 13, 14, 15, 16, 0xEE, 0xEE, 0xEE, 0xEE,
    ];
    let out = normalize(&raw, 2, 2, 12, PIXMAN_A8R8G8B8).unwrap();
    assert_eq!(out, vec![3u8, 2, 1, 4, 7, 6, 5, 8, 11, 10, 9, 12, 15, 14, 13, 16]);
}

#[test]
fn short_data_is_rejected() {
    let raw = vec![0u8; 31];
    assert_eq!(normalize(&raw, 4, 2, 16, PIXMAN_A8R8G8B8), Err(DisplayError::FormatError));
    let raw = vec![0u8; 64];
    assert_eq!(normalize(&raw, 4, 5, 16, PIXMAN_A8R8G8B8), Err(DisplayError::FormatError));
}

#[test]
fn exact_fit_is_accepted() {
    let raw = vec![0u8; 32];
    assert_eq!(normalize(&raw, 4, 2, 16, PIXMAN_A8R8G8B8), Ok(vec![0u8; 32]));
}

#[test]
fn stride_shorter_than_a_row_is_rejected() {
    let raw = vec![0u8; 64];
    assert_eq!(normalize(&raw, 4, 2, 15, PIXMAN_A8R8G8B8), Err(DisplayError::FormatError));
}

#[test]
fn unknown_format_is_rejected() {
    let raw = vec![0u8; 64];
    assert_eq!(normalize(&raw, 4, 2, 16, 0), Err(DisplayError::FormatError));
    assert_eq!(normalize(&raw, 4, 2, 16, 0x2002_8889), Err(DisplayError::FormatError));
}

#[test]
fn empty_frame_is_empty() {
    let raw: Vec<u8> = Vec::new();
    assert_eq!(normalize(&raw, 0, 0, 0, PIXMAN_A8R8G8B8), Ok(Vec::new()));
    assert_eq!(normalize(&raw, 0, 7, 0, PIXMAN_A8R8G8B8), Ok(Vec::new()));
    assert_eq!(normalize(&raw, 3, 0, 12, PIXMAN_A8R8G8B8), Ok(Vec::new()));
}

#[test]
fn raster_holds_the_normalized_bytes() {
    let raw = vec![1u8, 2, 3, 4, 5, 6, 7, 8];
    let img = normalize_raster(&raw, 2, 1, 8, PIXMAN_A8R8G8B8).unwrap();
    assert_eq!(img.into_bytes(), vec![3u8, 2, 1, 4, 7, 6, 5, 8]);
    assert!(matches!(normalize_raster(&raw, 2, 2, 8, PIXMAN_A8R8G8B8), Err(DisplayError::FormatError)));
}

#[test]
fn argb_packs_alpha_first() {
    assert_eq!(argb(0x11, 0x22, 0x33, 0x44), 0x4411_2233);
    assert_eq!(argb(0, 0, 0, 0xFF), 0xFF00_0000);
    assert_eq!(argb(0xFF, 0xFF, 0xFF, 0xFF), 0xFFFF_FFFF);
}

#[test]
fn pack_argb_makes_one_word_per_pixel() {
    let rgba = vec![0x11u8, 0x22, 0x33, 0x44, 0xAA, 0xBB, 0xCC, 0xDD];
    assert_eq!(pack_argb(&rgba), vec![0x4411_2233u32, 0xDDAA_BBCC]);
    // a trailing partial pixel is ignored
    let rgba = vec![0x11u8, 0x22, 0x33, 0x44, 0xAA];
    assert_eq!(pack_argb(&rgba), vec![0x4411_2233u32]);
    assert_eq!(pack_argb(&[]), Vec::<u32>::new());
}

#[test]
fn scanout_to_image_and_words() {
    let s = Scanout { width: 1, height: 2, stride: 4, pixman_format: PIXMAN_A8R8G8B8,
        data: vec![0x10, 0x20, 0x30, 0x40, 0x50, 0x60, 0x70, 0x80] };
    assert_eq!(s.to_image().unwrap().into_bytes(), vec![0x30u8, 0x20, 0x10, 0x40, 0x70, 0x60, 0x50, 0x80]);
    assert_eq!(s.to_argb_words(), Ok(vec![0x4030_2010u32, 0x8070_6050]));
    let bad = Scanout { width: 2, height: 2, stride: 8, pixman_format: PIXMAN_A8R8G8B8, data: vec![0; 15] };
    assert!(matches!(bad.to_image(), Err(DisplayError::FormatError)));
    assert_eq!(bad.to_argb_words(), Err(DisplayError::FormatError));
}

#[test]
fn foreign_pixels_are_read_as_rgba() {
    let h = ScanoutDMABUF { fd: 3, width: 2, height: 1, stride: 8, fourcc: 0, modifier: 0, y0_top: true };
    let buffer = vec![0x11u8, 0x22, 0x33, 0x44, 0xAA, 0xBB, 0xCC, 0xDD];
    assert_eq!(h.to_pixel_buffer(&buffer), Ok(vec![0x4411_2233u32, 0xDDAA_BBCC]));
}

#[test]
fn foreign_stride_shorter_than_a_row_is_rejected() {
    let h = ScanoutDMABUF { fd: 3, width: 2, height: 1, stride: 4, fourcc: 0, modifier: 0, y0_top: true };
    let buffer = vec![0x11u8, 0x22, 0x33, 0x44, 0xAA, 0xBB, 0xCC, 0xDD];
    assert_eq!(h.to_pixel_buffer(&buffer), Err(DisplayError::FormatError));
    let h = ScanoutDMABUF { fd: 3, width: 2, height: 1, stride: 7, fourcc: 0, modifier: 0, y0_top: true };
    assert_eq!(h.to_pixel_buffer(&buffer), Err(DisplayError::FormatError));
}

#[test]
fn foreign_buffer_shorter_than_the_region_is_rejected() {
    let h = ScanoutDMABUF { fd: -1, width: 1, height: 1, stride: 4, fourcc: 0, modifier: 0, y0_top: true };
    assert_eq!(h.to_pixel_buffer(&[]), Err(DisplayError::FormatError));
    assert_eq!(h.to_pixel_buffer(&[1, 2, 3]), Err(DisplayError::FormatError));
    assert_eq!(h.to_pixel_buffer(&[1, 2, 3, 4]), Ok(vec![0x0401_0203u32]));
    let h = ScanoutDMABUF { fd: 3, width: 1, height: 3, stride: 4, fourcc: 0, modifier: 0, y0_top: true };
    assert_eq!(h.to_pixel_buffer(&[0; 11]), Err(DisplayError::FormatError));
}

#[test]
fn foreign_buffer_of_no_pixels_is_empty() {
    let h = ScanoutDMABUF { fd: 3, width: 0, height: 5, stride: 0, fourcc: 0, modifier: 0, y0_top: true };
    assert_eq!(h.to_pixel_buffer(&[]), Ok(Vec::new()));
    let h = ScanoutDMABUF { fd: 3, width: 2, height: 0, stride: 8, fourcc: 0, modifier: 0, y0_top: true };
    assert_eq!(h.to_pixel_buffer(&[]), Ok(Vec::new()));
}

#[test]
fn foreign_rows_honor_stride() {
    let h = ScanoutDMABUF { fd: 3, width: 1, height: 2, stride: 6, fourcc: 0, modifier: 0, y0_top: true };
    let buffer = vec![1u8, 2, 3, 4, 0, 0, 5, 6, 7, 8, 0, 0];
    assert_eq!(h.to_pixel_buffer(&buffer), Ok(vec![0x0401_0203u32, 0x0805_0607]));
}

#[test]
fn unpack_argb_gives_rgba_bytes() {
    assert_eq!(unpack_argb(&[0x4411_2233, 0xDDAA_BBCC]), vec![0x11u8, 0x22, 0x33, 0x44, 0xAA, 0xBB, 0xCC, 0xDD]);
    assert_eq!(unpack_argb(&[]), Vec::<u8>::new());
}

#[test]
fn unpack_inverts_pack_on_whole_pixels() {
    let rgba: Vec<u8> = (0u16..256).map(|v| v as u8).collect();
    assert_eq!(unpack_argb(&pack_argb(&rgba)), rgba);
    let raw = vec![9u8, 8, 7, 6, 5, 4, 3, 2, 0, 0, 0, 0];
    let normalized = normalize(&raw, 2, 1, 12, PIXMAN_A8R8G8B8).unwrap();
    assert_eq!(unpack_argb(&pack_argb(&normalized)), normalized);
}
