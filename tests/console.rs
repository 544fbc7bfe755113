use bare_kernel::font::{get_char_raster, BACKUP_CHAR, CHAR_RASTER_HEIGHT, CHAR_RASTER_WIDTH};
use bare_kernel::printx;
use bare_kernel::writer::{FrameBufferInfo, FrameBufferWriter, PixelFormat, BORDER_PADDING, LINE_HEIGHT};

fn info(width: usize, height: usize, stride: usize, bpp: usize, format: PixelFormat) -> FrameBufferInfo {
    FrameBufferInfo {
        byte_len: stride * height * bpp,
        width,
        height,
        pixel_format: format,
        bytes_per_pixel: bpp,
        stride,
    }
}

fn console(width: usize, height: usize, stride: usize, bpp: usize, format: PixelFormat) -> FrameBufferWriter {
    let i = info(width, height, stride, bpp, format);
    FrameBufferWriter::new(vec![0xaau8; stride * height * bpp], i)
}

fn raster(c: char) -> &'static [&'static [u8]] {
    noto_sans_mono_bitmap::get_raster(
        c,
        noto_sans_mono_bitmap::FontWeight::Regular,
        noto_sans_mono_bitmap::RasterHeight::Size16,
    )
    .unwrap()
    .raster()
}

fn pixel(w: &FrameBufferWriter, x: usize, y: usize) -> Vec<u8> {
    let off = (y * 640 + x) * 4;
    w.framebuffer()[off..off + 4].to_vec()
}

#[test]
fn new_clears_buffer_and_sets_padding() {
    let w = console(640, 480, 640, 4, PixelFormat::Rgb);
    assert_eq!(w.cursor(), (BORDER_PADDING, BORDER_PADDING));
    assert!(w.framebuffer().iter().all(|b| *b == 0));
    assert_eq!(w.framebuffer().len(), 640 * 480 * 4);
}

#[test]
fn write_pixel_rgb_touches_exactly_four_bytes() {
    let mut w = console(640, 480, 640, 4, PixelFormat::Rgb);
    w.write_pixel(3, 2, 200);
    let off = (2 * 640 + 3) * 4;
    let buf = w.framebuffer();
    assert_eq!(&buf[off..off + 4], &[200, 200, 100, 0]);
    let changed = buf.iter().filter(|b| **b != 0).count();
    assert_eq!(changed, 3);
    assert_eq!(buf[off - 1], 0);
    assert_eq!(buf[off + 4], 0);
}

#[test]
fn write_pixel_bgr_three_bytes_per_pixel() {
    let mut w = console(20, 20, 24, 3, PixelFormat::Bgr);
    w.write_pixel(19, 19, 255);
    let off = (19 * 24 + 19) * 3;
    let buf = w.framebuffer();
    assert_eq!(&buf[off..off + 3], &[127, 255, 255]);
    assert_eq!(buf.iter().filter(|b| **b != 0).count(), 3);
}

#[test]
fn write_pixel_u8_thresholds_at_200() {
    let mut w = console(20, 20, 20, 1, PixelFormat::U8);
    w.write_pixel(1, 1, 201);
    w.write_pixel(2, 1, 200);
    let buf = w.framebuffer();
    assert_eq!(buf[21], 0xf);
    assert_eq!(buf[22], 0);
    assert_eq!(buf.iter().filter(|b| **b != 0).count(), 1);
}

#[test]
fn set_cursor_in_bounds_is_idempotent() {
    let mut w = console(640, 480, 640, 4, PixelFormat::Rgb);
    w.set_cursor(1, 3);
    let first = w.cursor();
    w.set_cursor(1, 3);
    assert_eq!(w.cursor(), first);
    assert_eq!(first, (27, 18));
}

#[test]
fn set_cursor_below_screen_clears() {
    let mut w = console(640, 480, 640, 4, PixelFormat::Rgb);
    w.write_str("abc");
    w.set_cursor(1000, 2);
    assert_eq!(w.cursor(), (BORDER_PADDING, BORDER_PADDING));
    assert!(w.framebuffer().iter().all(|b| *b == 0));
}

#[test]
fn set_cursor_beyond_right_edge_starts_next_line() {
    let mut w = console(640, 480, 640, 4, PixelFormat::Rgb);
    w.set_cursor(2, 500);
    assert_eq!(w.cursor(), (BORDER_PADDING, 3 * LINE_HEIGHT));
}

#[test]
fn set_cursor_huge_values_do_not_overflow() {
    let mut w = console(640, 480, 640, 4, PixelFormat::Rgb);
    w.set_cursor(usize::MAX, usize::MAX);
    assert_eq!(w.cursor(), (1, 1));
    w.set_cursor(3, usize::MAX);
    assert_eq!(w.cursor(), (1, 4 * 18));
}

#[test]
fn newline_moves_to_padding_of_next_line() {
    let mut w = console(640, 480, 640, 4, PixelFormat::Rgb);
    w.set_cursor(2, 5);
    w.write_str("\n");
    assert_eq!(w.cursor(), (BORDER_PADDING, 2 * 18 + 18));
}

#[test]
fn carriage_return_keeps_line() {
    let mut w = console(640, 480, 640, 4, PixelFormat::Rgb);
    w.write_str("ab\r");
    assert_eq!(w.cursor(), (BORDER_PADDING, BORDER_PADDING));
}

#[test]
fn backspace_at_left_margin_changes_nothing() {
    let mut w = console(640, 480, 640, 4, PixelFormat::Rgb);
    w.write_str("x\n");
    let before = w.framebuffer().to_vec();
    let cursor = w.cursor();
    w.backspace();
    assert_eq!(w.cursor(), cursor);
    assert_eq!(w.framebuffer(), &before[..]);
}

#[test]
fn backspace_erases_last_cell() {
    let mut w = console(640, 480, 640, 4, PixelFormat::Rgb);
    w.write_str("H");
    assert!(w.framebuffer().iter().any(|b| *b != 0));
    w.backspace();
    assert_eq!(w.cursor(), (BORDER_PADDING, BORDER_PADDING));
    assert!(w.framebuffer().iter().all(|b| *b == 0));
}

#[test]
fn long_line_wraps_before_right_edge() {
    let mut w = console(40, 100, 40, 4, PixelFormat::Rgb);
    w.write_str("abcd");
    assert_eq!(w.cursor(), (1 + 4 * 9, 1));
    // 40 pixels hold four cells after the padding; the fifth wraps.
    w.write_str("e");
    assert_eq!(w.cursor(), (1 + 9, 1 + 18));
}

#[test]
fn glyph_at_bottom_clears_screen_first() {
    let mut w = console(40, 36, 40, 4, PixelFormat::Rgb);
    w.write_str("a\nb");
    assert_eq!(w.cursor(), (1 + 9, 1));
}

#[test]
fn hi_newline_end_to_end() {
    let mut w = console(640, 480, 640, 4, PixelFormat::Rgb);
    let (x0, y0) = w.cursor();
    w.write_str("Hi\n");
    assert_eq!(w.cursor(), (BORDER_PADDING, y0 + LINE_HEIGHT));
    for (k, c) in ['H', 'i'].iter().enumerate() {
        let g = raster(*c);
        for r in 0..CHAR_RASTER_HEIGHT {
            for col in 0..CHAR_RASTER_WIDTH {
                let v = g[r][col];
                assert_eq!(pixel(&w, x0 + k * CHAR_RASTER_WIDTH + col, y0 + r), vec![v, v, v / 2, 0]);
            }
        }
    }
}

#[test]
fn unknown_char_uses_backup_raster() {
    let unknown = get_char_raster('\u{4e2d}');
    let backup = get_char_raster(BACKUP_CHAR);
    assert_eq!(unknown, backup);
    let h = get_char_raster('H');
    assert_ne!(h, backup);
    assert_eq!(h.len(), CHAR_RASTER_HEIGHT);
    assert!(h.iter().all(|row| row.len() == CHAR_RASTER_WIDTH));
    assert!(h.iter().any(|row| row.iter().any(|b| *b != 0)));
}

#[test]
fn printx_writes_to_console_when_present() {
    let mut none: Option<FrameBufferWriter> = None;
    printx(&mut none, "abc");
    assert!(none.is_none());
    let mut some = Some(console(640, 480, 640, 4, PixelFormat::Rgb));
    printx(&mut some, "ab");
    assert_eq!(some.unwrap().cursor(), (1 + 18, 1));
}
