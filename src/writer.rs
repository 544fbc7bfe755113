use vstd::prelude::*;
use vstd::pervasive::VecAdditionalExecFns;
use vstd::string::StrSliceExecFns;
use crate::keyboard::Key;
use crate::font::{get_char_raster, glyph_of, glyph_shaped, CHAR_RASTER_HEIGHT, CHAR_RASTER_WIDTH};

verus! {

/// Additional vertical space between lines.
pub const LINE_SPACING: usize = 2;

/// Additional horizontal space between characters.
pub const LETTER_SPACING: usize = 0;

/// Padding from the border, so that glyphs do not touch the screen's edge.
pub const BORDER_PADDING: usize = 1;

/// Vertical distance between two text lines.
pub const LINE_HEIGHT: usize = CHAR_RASTER_HEIGHT + LINE_SPACING;

/// Horizontal distance between two character cells.
pub const CELL_WIDTH: usize = CHAR_RASTER_WIDTH + LETTER_SPACING;

/// Color layout of one pixel in the framebuffer.
#[derive(Clone, Copy, Debug, PartialEq, Eq, Structural)]
pub enum PixelFormat {
    /// One byte each of red, green and blue, in that order.
    Rgb,
    /// One byte each of blue, green and red, in that order.
    Bgr,
    /// A single grayscale byte.
    U8,
    /// Some other layout, which this console cannot draw.
    Unknown { red_position: u8, green_position: u8, blue_position: u8 },
}

/// Geometry of a framebuffer as the boot loader hands it over.
#[derive(Clone, Copy, Debug, PartialEq, Eq, Structural)]
pub struct FrameBufferInfo {
    /// Size of the buffer in bytes.
    pub byte_len: usize,
    /// Visible pixels per line.
    pub width: usize,
    /// Number of lines.
    pub height: usize,
    /// Layout of each pixel.
    pub pixel_format: PixelFormat,
    /// Bytes used by one pixel.
    pub bytes_per_pixel: usize,
    /// Pixels between the start of one line and the start of the next.
    pub stride: usize,
}

/// The pixel formats this console can draw.
pub open spec fn format_supported(f: PixelFormat) -> bool {
    f is Rgb || f is Bgr || f is U8
}

/// A geometry this console can draw on, over a buffer of `len` bytes: every
/// pixel of the visible area lies inside the buffer, and one glyph cell
/// (with its padding) fits on the screen.
pub open spec fn valid_geometry(info: FrameBufferInfo, len: nat) -> bool {
    &&& 1 <= info.bytes_per_pixel <= 4
    &&& info.width <= info.stride
    &&& info.width >= CELL_WIDTH + BORDER_PADDING
    &&& info.height >= LINE_HEIGHT
    &&& info.stride * info.height * info.bytes_per_pixel <= len
    &&& format_supported(info.pixel_format)
}

/// The four color bytes written for a glyph pixel of the given intensity.
pub open spec fn color_of(f: PixelFormat, intensity: u8) -> Seq<u8> {
    match f {
        PixelFormat::Rgb => seq![intensity, intensity, (intensity / 2) as u8, 0u8],
        PixelFormat::Bgr => seq![(intensity / 2) as u8, intensity, intensity, 0u8],
        PixelFormat::U8 => seq![if intensity > 200 { 0xfu8 } else { 0u8 }, 0u8, 0u8, 0u8],
        PixelFormat::Unknown { .. } => seq![0u8, 0u8, 0u8, 0u8],
    }
}

/// Index of the first byte of pixel (x, y).
pub open spec fn pixel_offset(info: FrameBufferInfo, x: int, y: int) -> int {
    (y * info.stride + x) * info.bytes_per_pixel
}

/// `buf` holds, at pixel (x, y), the color bytes of `intensity`.
pub open spec fn pixel_holds(buf: Seq<u8>, info: FrameBufferInfo, x: int, y: int, intensity: u8) -> bool {
    forall|k: int|
        0 <= k < info.bytes_per_pixel ==> #[trigger] buf[pixel_offset(info, x, y) + k]
            == color_of(info.pixel_format, intensity)[k]
}

/// `buf` holds the first `rows` rows of glyph bitmap `g` drawn with its
/// top-left corner at (x, y).
pub open spec fn rows_drawn(buf: Seq<u8>, info: FrameBufferInfo, x: int, y: int, g: Seq<Seq<u8>>, rows: int) -> bool {
    forall|r: int, c: int|
        0 <= r < rows && 0 <= c < CHAR_RASTER_WIDTH ==> pixel_holds(
            buf,
            info,
            x + c,
            y + r,
            #[trigger] g[r][c],
        )
}

/// `buf` holds the whole glyph bitmap `g` drawn with its top-left corner at (x, y).
pub open spec fn glyph_drawn(buf: Seq<u8>, info: FrameBufferInfo, x: int, y: int, g: Seq<Seq<u8>>) -> bool {
    rows_drawn(buf, info, x, y, g, CHAR_RASTER_HEIGHT as int)
}

/// Byte `i` of the buffer belongs to pixel (x, y).
pub open spec fn in_pixel(info: FrameBufferInfo, x: int, y: int, i: int) -> bool {
    pixel_offset(info, x, y) <= i < pixel_offset(info, x, y) + info.bytes_per_pixel
}

/// Byte `i` of the buffer belongs to a pixel of the first `rows` rows of the
/// character cell whose top-left corner is (x, y).
pub open spec fn in_cell(info: FrameBufferInfo, x: int, y: int, rows: int, i: int) -> bool {
    exists|r: int, c: int|
        0 <= r < rows && 0 <= c < CHAR_RASTER_WIDTH && #[trigger] in_pixel(info, x + c, y + r, i)
}

/// Every byte of `after` outside that cell is as in `before`.
pub open spec fn unchanged_outside(
    before: Seq<u8>,
    after: Seq<u8>,
    info: FrameBufferInfo,
    x: int,
    y: int,
    rows: int,
) -> bool {
    forall|i: int|
        0 <= i < before.len() && !in_cell(info, x, y, rows, i) ==> #[trigger] after[i] == before[i]
}

/// Every byte of `after` outside that cell is zero.
pub open spec fn zero_outside(after: Seq<u8>, info: FrameBufferInfo, x: int, y: int, rows: int) -> bool {
    forall|i: int| 0 <= i < after.len() && !in_cell(info, x, y, rows, i) ==> #[trigger] after[i] == 0
}

/// A glyph bitmap of zero intensity: an empty cell.
pub open spec fn blank_glyph() -> Seq<Seq<u8>> {
    Seq::new(CHAR_RASTER_HEIGHT as nat, |r: int| Seq::new(CHAR_RASTER_WIDTH as nat, |c: int| 0u8))
}

proof fn lemma_pixel_in_buffer(info: FrameBufferInfo, x: int, y: int)
    requires
        0 <= x < info.width,
        0 <= y < info.height,
        info.width <= info.stride,
        1 <= info.bytes_per_pixel,
    ensures
        0 <= pixel_offset(info, x, y),
        y * info.stride + x <= pixel_offset(info, x, y),
        y * info.stride + x + 1 <= info.stride * info.height,
        info.stride * info.height <= info.stride * info.height * info.bytes_per_pixel,
        pixel_offset(info, x, y) + info.bytes_per_pixel
            <= info.stride * info.height * info.bytes_per_pixel,
{
    let s = info.stride as int;
    let h = info.height as int;
    let b = info.bytes_per_pixel as int;
    assert(y * s + x + 1 <= h * s) by (nonlinear_arith)
        requires 0 <= x < s, 0 <= y < h;
    assert((y * s + x) * b + b <= s * h * b) by (nonlinear_arith)
        requires y * s + x + 1 <= h * s, 0 <= y, 0 <= x, b >= 1;
    assert(0 <= y * s + x <= (y * s + x) * b) by (nonlinear_arith)
        requires 0 <= y, 0 <= x, 0 <= s, b >= 1;
    assert(s * h <= s * h * b) by (nonlinear_arith)
        requires 0 <= s, 0 <= h, b >= 1;
}

proof fn lemma_geometry_bounds(info: FrameBufferInfo, len: nat)
    requires
        valid_geometry(info, len),
    ensures
        info.stride * info.height <= len,
        info.height * CELL_WIDTH <= len,
        info.width * LINE_HEIGHT <= len,
{
    let s = info.stride as int;
    let h = info.height as int;
    let b = info.bytes_per_pixel as int;
    assert(s * h <= s * h * b) by (nonlinear_arith)
        requires 0 <= s, 0 <= h, b >= 1;
    assert(h * 9 <= s * h) by (nonlinear_arith)
        requires s >= 9, h >= 0;
    assert(info.width * 18 <= s * h) by (nonlinear_arith)
        requires s >= info.width, h >= 18, info.width >= 0;
}

proof fn lemma_pixels_disjoint(info: FrameBufferInfo, x1: int, y1: int, x2: int, y2: int, k: int)
    requires
        0 <= x1 < info.stride,
        0 <= x2 < info.stride,
        0 <= y1,
        0 <= y2,
        x1 != x2 || y1 != y2,
        0 <= k < info.bytes_per_pixel,
    ensures
        !(pixel_offset(info, x2, y2) <= pixel_offset(info, x1, y1) + k < pixel_offset(info, x2, y2)
            + info.bytes_per_pixel),
{
    let s = info.stride as int;
    let b = info.bytes_per_pixel as int;
    let p1 = y1 * s + x1;
    let p2 = y2 * s + x2;
    if y1 < y2 {
        assert(p1 < p2) by (nonlinear_arith)
            requires y1 < y2, 0 <= x1 < s, 0 <= x2, p1 == y1 * s + x1, p2 == y2 * s + x2;
    } else if y2 < y1 {
        assert(p2 < p1) by (nonlinear_arith)
            requires y2 < y1, 0 <= x2 < s, 0 <= x1, p1 == y1 * s + x1, p2 == y2 * s + x2;
    }
    assert(p1 != p2);
    assert(p1 * b + k < p2 * b || p2 * b + b <= p1 * b + k) by (nonlinear_arith)
        requires p1 != p2, 0 <= k < b;
}

/// Cursor position after moving to text cell (row, column): the cell's
/// pixel origin; the top-left padding position where the row lies below the
/// screen (which is also cleared); the start of the following line where
/// the column lies beyond the right edge.
pub open spec fn cursor_for_cell(info: FrameBufferInfo, row: int, column: int) -> (int, int) {
    let y = row * LINE_HEIGHT;
    let x = column * CELL_WIDTH;
    if y >= info.height {
        (BORDER_PADDING as int, BORDER_PADDING as int)
    } else if x >= info.width {
        (BORDER_PADDING as int, y + LINE_HEIGHT)
    } else {
        (x, y)
    }
}

/// Buffer contents after moving to text cell (row, column): all zero where
/// the row lies below the screen, else unchanged.
pub open spec fn buffer_for_cell(info: FrameBufferInfo, buf: Seq<u8>, row: int) -> Seq<u8> {
    if row * LINE_HEIGHT >= info.height {
        Seq::new(buf.len(), |i: int| 0u8)
    } else {
        buf
    }
}

/// Where a printable character is drawn from cursor (x, y), and whether the
/// screen is cleared first: on the following line where the cell would
/// reach the right edge, and at the top-left padding position, on a cleared
/// screen, where it would reach the bottom.
pub open spec fn glyph_origin(info: FrameBufferInfo, x: int, y: int) -> (int, int, bool) {
    let (x1, y1) = if x + CHAR_RASTER_WIDTH >= info.width {
        (BORDER_PADDING as int, y + LINE_HEIGHT)
    } else {
        (x, y)
    };
    if y1 + CHAR_RASTER_HEIGHT + BORDER_PADDING >= info.height {
        (BORDER_PADDING as int, BORDER_PADDING as int, true)
    } else {
        (x1, y1, false)
    }
}

/// Cursor position after writing `c` from cursor (x, y).
pub open spec fn cursor_after_char(info: FrameBufferInfo, x: int, y: int, c: char) -> (int, int) {
    if c == '\n' {
        (BORDER_PADDING as int, y + LINE_HEIGHT)
    } else if c == '\r' {
        (BORDER_PADDING as int, y)
    } else {
        let o = glyph_origin(info, x, y);
        (o.0 + CELL_WIDTH, o.1)
    }
}

/// The byte that glyph `g`, drawn with its top-left corner at (x, y), puts
/// at index `i` of the buffer, for an index inside its cell.
pub open spec fn cell_byte(info: FrameBufferInfo, x: int, y: int, g: Seq<Seq<u8>>, i: int) -> u8 {
    let (r, c) = choose|r: int, c: int|
        0 <= r < CHAR_RASTER_HEIGHT && 0 <= c < CHAR_RASTER_WIDTH && #[trigger] in_pixel(info, x + c, y + r, i);
    color_of(info.pixel_format, g[r][c])[i - pixel_offset(info, x + c, y + r)]
}

/// Buffer contents after writing `c` from cursor (x, y): control characters
/// draw nothing; any other character draws its glyph where `glyph_origin`
/// puts it, on a zeroed screen where that clears it first.
pub open spec fn buffer_after_char(info: FrameBufferInfo, buf: Seq<u8>, x: int, y: int, c: char) -> Seq<u8> {
    if c == '\n' || c == '\r' {
        buf
    } else {
        let o = glyph_origin(info, x, y);
        Seq::new(
            buf.len(),
            |i: int|
                if in_cell(info, o.0, o.1, CHAR_RASTER_HEIGHT as int, i) {
                    cell_byte(info, o.0, o.1, glyph_of(c), i)
                } else if o.2 {
                    0u8
                } else {
                    buf[i]
                },
        )
    }
}

/// Cursor position after writing the characters of `s` from cursor (x, y).
pub open spec fn cursor_after_text(info: FrameBufferInfo, x: int, y: int, s: Seq<char>) -> (int, int)
    decreases s.len(),
{
    if s.len() == 0 {
        (x, y)
    } else {
        let p = cursor_after_text(info, x, y, s.drop_last());
        cursor_after_char(info, p.0, p.1, s.last())
    }
}

/// How many pixel rows of a cell whose top is at line `y` lie on the screen.
pub open spec fn visible_rows(info: FrameBufferInfo, y: int) -> int {
    if y >= info.height {
        0
    } else if info.height - y < CHAR_RASTER_HEIGHT {
        info.height - y
    } else {
        CHAR_RASTER_HEIGHT as int
    }
}

/// Builds a glyph bitmap of zero intensity.
fn blank_raster() -> (r: Vec<Vec<u8>>)
    ensures
        r.deep_view() == blank_glyph(),
{
    let mut r: Vec<Vec<u8>> = Vec::new();
    let mut i: usize = 0;
    while i < CHAR_RASTER_HEIGHT
        invariant
            i <= CHAR_RASTER_HEIGHT,
            r@.len() == i,
            forall|k: int| 0 <= k < i ==> (#[trigger] r@[k])@ == Seq::new(CHAR_RASTER_WIDTH as nat, |c: int| 0u8),
        decreases CHAR_RASTER_HEIGHT - i,
    {
        let mut row: Vec<u8> = Vec::new();
        let mut j: usize = 0;
        while j < CHAR_RASTER_WIDTH
            invariant
                j <= CHAR_RASTER_WIDTH,
                row@ =~= Seq::new(j as nat, |c: int| 0u8),
            decreases CHAR_RASTER_WIDTH - j,
        {
            row.push(0);
            j += 1;
        }
        r.push(row);
        i += 1;
    }
    assert forall|k: int| 0 <= k < CHAR_RASTER_HEIGHT implies #[trigger] r.deep_view()[k] =~= blank_glyph()[k] by {
        assert(r@[k].deep_view() =~= r@[k]@);
    }
    assert(r.deep_view() =~= blank_glyph());
    r
}

/// Cursor column after a backspace from column `x`.
pub open spec fn x_after_backspace(x: int) -> int {
    if x >= BORDER_PADDING + CHAR_RASTER_WIDTH {
        x - CELL_WIDTH
    } else {
        x
    }
}

/// Buffer contents after a backspace from cursor (x, y): the visible part
/// of the cell left of the cursor is zeroed, unless the cursor stands at the
/// left margin.
pub open spec fn buffer_after_backspace(info: FrameBufferInfo, buf: Seq<u8>, x: int, y: int) -> Seq<u8> {
    if x >= BORDER_PADDING + CHAR_RASTER_WIDTH {
        Seq::new(
            buf.len(),
            |i: int|
                if in_cell(info, x - CELL_WIDTH, y, visible_rows(info, y), i) {
                    0u8
                } else {
                    buf[i]
                },
        )
    } else {
        buf
    }
}

/// How many characters the console writes for `key`.
pub open spec fn key_text_len(key: Key) -> nat {
    match key {
        Key::Unicode(_) => 1,
        Key::RawKey(name) => name@.len(),
    }
}

/// No character of `s` is a newline or a carriage return.
pub open spec fn printable(s: Seq<char>) -> bool {
    forall|i: int| 0 <= i < s.len() ==> #[trigger] s[i] != '\n' && s[i] != '\r'
}

/// Moving to a text cell is idempotent: doing it again leaves the screen as
/// the first move left it, and the cursor position depends on the cell
/// alone, which for a cell on the screen is its pixel origin.
pub proof fn lemma_set_cursor_idempotent(info: FrameBufferInfo, buf: Seq<u8>, row: int, column: int)
    requires
        0 <= row,
        0 <= column,
    ensures
        buffer_for_cell(info, buffer_for_cell(info, buf, row), row) == buffer_for_cell(info, buf, row),
        row * LINE_HEIGHT < info.height && column * CELL_WIDTH < info.width ==> cursor_for_cell(
            info,
            row,
            column,
        ) == (column * CELL_WIDTH, row * LINE_HEIGHT),
{
    if row * LINE_HEIGHT >= info.height {
        assert(Seq::new(buf.len(), |i: int| 0u8).len() == buf.len());
    }
}

/// Writing a newline from any cursor (x, y) moves the cursor to the border
/// padding of the following line.
pub proof fn lemma_newline_moves_down(info: FrameBufferInfo, x: int, y: int)
    ensures
        cursor_after_text(info, x, y, seq!['\n']) == (BORDER_PADDING as int, y + LINE_HEIGHT),
{
    assert(seq!['\n'].drop_last() =~= Seq::<char>::empty());
    assert(cursor_after_text(info, x, y, Seq::<char>::empty()) == (x, y));
}

proof fn lemma_no_wrap_advances(info: FrameBufferInfo, x: int, y: int, s: Seq<char>, i: int)
    requires
        printable(s),
        0 <= i <= s.len(),
        y + CHAR_RASTER_HEIGHT + BORDER_PADDING < info.height,
        forall|j: int|
            0 <= j < i ==> #[trigger] cursor_after_text(info, x, y, s.take(j)).0 + CHAR_RASTER_WIDTH
                < info.width,
    ensures
        cursor_after_text(info, x, y, s.take(i)) == (x + CELL_WIDTH * i, y),
    decreases i,
{
    if i == 0 {
        assert(s.take(0) =~= Seq::<char>::empty());
    } else {
        lemma_no_wrap_advances(info, x, y, s, i - 1);
        assert(s.take(i).drop_last() =~= s.take(i - 1));
        assert(s.take(i).last() == s[i - 1]);
        let p = cursor_after_text(info, x, y, s.take(i - 1));
        assert(p.0 + CHAR_RASTER_WIDTH < info.width);
    }
}

/// A line of printable characters wider than the screen wraps: some
/// character of it finds the cursor too close to the right edge for its
/// cell, and is drawn at the border padding of a new line instead. This
/// holds for a line that starts where a glyph fits above the bottom edge.
pub proof fn lemma_long_line_wraps(info: FrameBufferInfo, x: int, y: int, s: Seq<char>)
    requires
        printable(s),
        0 <= x,
        CELL_WIDTH * s.len() > info.width,
        y + CHAR_RASTER_HEIGHT + BORDER_PADDING < info.height,
    ensures
        exists|i: int|
            0 <= i < s.len() && #[trigger] cursor_after_text(info, x, y, s.take(i)).0 + CHAR_RASTER_WIDTH
                >= info.width && glyph_origin(
                info,
                cursor_after_text(info, x, y, s.take(i)).0,
                cursor_after_text(info, x, y, s.take(i)).1,
            ).0 == BORDER_PADDING,
{
    if forall|j: int|
        0 <= j < s.len() ==> #[trigger] cursor_after_text(info, x, y, s.take(j)).0 + CHAR_RASTER_WIDTH
            < info.width {
        let n = s.len() as int;
        lemma_no_wrap_advances(info, x, y, s, n - 1);
        assert(cursor_after_text(info, x, y, s.take(n - 1)).0 + CHAR_RASTER_WIDTH < info.width);
        assert(CELL_WIDTH * (n - 1) + CELL_WIDTH == CELL_WIDTH * n) by (nonlinear_arith);
        assert(false);
    }
}

/// Buffer contents after writing the characters of `s` from cursor (x, y).
pub open spec fn buffer_after_text(info: FrameBufferInfo, buf: Seq<u8>, x: int, y: int, s: Seq<char>) -> Seq<u8>
    decreases s.len(),
{
    if s.len() == 0 {
        buf
    } else {
        let p = cursor_after_text(info, x, y, s.drop_last());
        buffer_after_char(info, buffer_after_text(info, buf, x, y, s.drop_last()), p.0, p.1, s.last())
    }
}

/// `after` is `before` once `key` is shown: the backspace character erases
/// the cell left of the cursor, any other character is written, and a key
/// without a character is written by its name.
pub open spec fn shows_key(before: FrameBufferWriter, after: FrameBufferWriter, key: Key) -> bool {
    &&& after.wf()
    &&& after.info() == before.info()
    &&& match key {
        Key::Unicode(c) => if c == '\u{8}' {
            &&& after.x() == x_after_backspace(before.x())
            &&& after.y() == before.y()
            &&& after.buf() == buffer_after_backspace(before.info(), before.buf(), before.x(), before.y())
        } else {
            &&& (after.x(), after.y()) == cursor_after_char(before.info(), before.x(), before.y(), c)
            &&& after.buf() == buffer_after_char(before.info(), before.buf(), before.x(), before.y(), c)
        },
        Key::RawKey(name) => {
            &&& (after.x(), after.y()) == cursor_after_text(before.info(), before.x(), before.y(), name@)
            &&& after.buf() == buffer_after_text(before.info(), before.buf(), before.x(), before.y(), name@)
        },
    }
}

/// Allows logging text to a pixel-based framebuffer.
pub struct FrameBufferWriter {
    framebuffer: Vec<u8>,
    info: FrameBufferInfo,
    x_pos: usize,
    y_pos: usize,
}

impl FrameBufferWriter {
    /// The bytes of the framebuffer.
    pub closed spec fn buf(&self) -> Seq<u8> {
        self.framebuffer@
    }

    /// The geometry the writer draws with.
    pub closed spec fn info(&self) -> FrameBufferInfo {
        self.info
    }

    /// Horizontal cursor position, in pixels.
    pub closed spec fn x(&self) -> int {
        self.x_pos as int
    }

    /// Vertical cursor position, in pixels.
    pub closed spec fn y(&self) -> int {
        self.y_pos as int
    }

    /// The geometry fits the buffer and the cursor lies within the width.
    pub closed spec fn wf(&self) -> bool {
        &&& valid_geometry(self.info, self.framebuffer@.len())
        &&& self.x_pos <= self.info.width
    }

    /// Creates a writer that draws on `framebuffer`, which it clears; the
    /// cursor starts at the top-left padding position.
    pub fn new(framebuffer: Vec<u8>, info: FrameBufferInfo) -> (r: Self)
        requires
            valid_geometry(info, framebuffer@.len()),
        ensures
            r.wf(),
            r.info() == info,
            r.x() == BORDER_PADDING,
            r.y() == BORDER_PADDING,
            r.buf() == Seq::new(framebuffer@.len(), |i: int| 0u8),
    {
        let mut logger = FrameBufferWriter { framebuffer, info, x_pos: 0, y_pos: 0 };
        logger.clear();
        logger
    }

    fn newline(&mut self)
        requires
            old(self).wf(),
            old(self).y() + LINE_HEIGHT <= usize::MAX,
        ensures
            final(self).wf(),
            final(self).info() == old(self).info(),
            final(self).buf() == old(self).buf(),
            final(self).x() == BORDER_PADDING,
            final(self).y() == old(self).y() + LINE_HEIGHT,
    {
        self.y_pos = self.y_pos + CHAR_RASTER_HEIGHT + LINE_SPACING;
        self.carriage_return()
    }

    fn carriage_return(&mut self)
        requires
            old(self).wf(),
        ensures
            final(self).wf(),
            final(self).info() == old(self).info(),
            final(self).buf() == old(self).buf(),
            final(self).x() == BORDER_PADDING,
            final(self).y() == old(self).y(),
    {
        self.x_pos = BORDER_PADDING;
    }

    /// Erases all text on the screen and moves the cursor to the top-left
    /// padding position.
    pub fn clear(&mut self)
        requires
            valid_geometry(old(self).info(), old(self).buf().len()),
        ensures
            final(self).wf(),
            final(self).info() == old(self).info(),
            final(self).x() == BORDER_PADDING,
            final(self).y() == BORDER_PADDING,
            final(self).buf() == Seq::new(old(self).buf().len(), |i: int| 0u8),
    {
        self.x_pos = BORDER_PADDING;
        self.y_pos = BORDER_PADDING;
        let len = self.framebuffer.len();
        let mut i: usize = 0;
        while i < len
            invariant
                self.info == old(self).info,
                self.x_pos == BORDER_PADDING,
                self.y_pos == BORDER_PADDING,
                len == self.framebuffer@.len(),
                len == old(self).framebuffer@.len(),
                i <= len,
                forall|j: int| 0 <= j < i ==> #[trigger] self.framebuffer@[j] == 0u8,
            decreases len - i,
        {
            self.framebuffer.set(i, 0);
            i += 1;
        }
        assert(self.framebuffer@ =~= Seq::new(len as nat, |j: int| 0u8));
    }

    fn width(&self) -> (r: usize)
        ensures
            r == self.info().width,
    {
        self.info.width
    }

    fn height(&self) -> (r: usize)
        ensures
            r == self.info().height,
    {
        self.info.height
    }

    /// Moves the cursor to text cell (row, column). A row below the screen
    /// clears it; a column beyond the right edge starts the following line.
    pub fn set_cursor(&mut self, row: usize, column: usize)
        requires
            old(self).wf(),
        ensures
            final(self).wf(),
            final(self).info() == old(self).info(),
            (final(self).x(), final(self).y()) == cursor_for_cell(
                old(self).info(),
                row as int,
                column as int,
            ),
            final(self).buf() == buffer_for_cell(old(self).info(), old(self).buf(), row as int),
    {
        let len = self.framebuffer.len();
        proof {
            lemma_geometry_bounds(self.info, len as nat);
        }
        let height = self.height();
        let width = self.width();
        match row.checked_mul(CHAR_RASTER_HEIGHT + LINE_SPACING) {
            Some(y) if y < height => {
                self.y_pos = y;
                match column.checked_mul(CHAR_RASTER_WIDTH + LETTER_SPACING) {
                    Some(x) if x < width => {
                        self.x_pos = x;
                    },
                    _ => {
                        self.x_pos = BORDER_PADDING;
                        self.newline();
                    },
                }
            },
            _ => {
                self.clear();
            },
        }
    }

    /// Draws the first `rows` rows of glyph bitmap `glyph` with its top-left
    /// corner at (x0, y0); the cursor stays where it is.
    fn paint_cell(&mut self, x0: usize, y0: usize, glyph: &Vec<Vec<u8>>, rows: usize)
        requires
            old(self).wf(),
            glyph_shaped(glyph.deep_view()),
            x0 + CHAR_RASTER_WIDTH <= old(self).info().width,
            y0 + rows <= old(self).info().height,
            rows <= CHAR_RASTER_HEIGHT,
        ensures
            final(self).wf(),
            final(self).info() == old(self).info(),
            final(self).x() == old(self).x(),
            final(self).y() == old(self).y(),
            final(self).buf().len() == old(self).buf().len(),
            rows_drawn(final(self).buf(), old(self).info(), x0 as int, y0 as int, glyph.deep_view(), rows as int),
            unchanged_outside(old(self).buf(), final(self).buf(), old(self).info(), x0 as int, y0 as int, rows as int),
    {
        let ghost info = self.info;
        let ghost g = glyph.deep_view();
        let ghost len = self.framebuffer@.len();
        let mut r: usize = 0;
        while r < rows
            invariant
                self.wf(),
                self.info == info,
                info == old(self).info,
                self.x_pos == old(self).x_pos,
                self.y_pos == old(self).y_pos,
                x0 + CHAR_RASTER_WIDTH <= info.width,
                y0 + rows <= info.height,
                rows <= CHAR_RASTER_HEIGHT,
                self.framebuffer@.len() == len,
                len == old(self).framebuffer@.len(),
                g == glyph.deep_view(),
                glyph_shaped(g),
                r <= rows,
                unchanged_outside(old(self).framebuffer@, self.framebuffer@, info, x0 as int, y0 as int, rows as int),
                forall|r2: int, c2: int|
                    0 <= r2 < r && 0 <= c2 < CHAR_RASTER_WIDTH ==> pixel_holds(
                        self.framebuffer@,
                        info,
                        x0 + c2,
                        y0 + r2,
                        #[trigger] g[r2][c2],
                    ),
            decreases rows - r,
        {
            let row = &glyph[r];
            assert(row@ == g[r as int]);
            let mut c: usize = 0;
            while c < CHAR_RASTER_WIDTH
                invariant
                    self.wf(),
                    self.info == info,
                    self.x_pos == old(self).x_pos,
                    self.y_pos == old(self).y_pos,
                    x0 + CHAR_RASTER_WIDTH <= info.width,
                    y0 + rows <= info.height,
                    self.framebuffer@.len() == len,
                    glyph_shaped(g),
                    row@ == g[r as int],
                    r < rows,
                    rows <= CHAR_RASTER_HEIGHT,
                    c <= CHAR_RASTER_WIDTH,
                    len == old(self).framebuffer@.len(),
                    unchanged_outside(old(self).framebuffer@, self.framebuffer@, info, x0 as int, y0 as int, rows as int),
                    forall|r2: int, c2: int|
                        (0 <= r2 < r && 0 <= c2 < CHAR_RASTER_WIDTH) || (r2 == r && 0 <= c2 < c)
                            ==> pixel_holds(
                            self.framebuffer@,
                            info,
                            x0 + c2,
                            y0 + r2,
                            #[trigger] g[r2][c2],
                        ),
                decreases CHAR_RASTER_WIDTH - c,
            {
                let ghost prev = self.framebuffer@;
                let px = x0 + c;
                let py = y0 + r;
                self.write_pixel(px, py, row[c]);
                proof {
                    let b = info.bytes_per_pixel as int;
                    let wo = pixel_offset(info, px as int, py as int);
                    lemma_pixel_in_buffer(info, px as int, py as int);
                    assert forall|i: int|
                        0 <= i < len && !in_cell(info, x0 as int, y0 as int, rows as int, i) implies #[trigger] self.framebuffer@[i]
                            == old(self).framebuffer@[i] by {
                        if in_pixel(info, px as int, py as int, i) {
                            assert(in_pixel(info, x0 + c as int, y0 + r as int, i));
                        }
                    }
                    assert forall|r2: int, c2: int|
                        (0 <= r2 < r && 0 <= c2 < CHAR_RASTER_WIDTH) || (r2 == r && 0 <= c2 < c
                            + 1) implies pixel_holds(
                        self.framebuffer@,
                        info,
                        x0 + c2,
                        y0 + r2,
                        #[trigger] g[r2][c2],
                    ) by {
                        lemma_pixel_in_buffer(info, x0 + c2, y0 + r2);
                        let o = pixel_offset(info, x0 + c2, y0 + r2);
                        if r2 == r && c2 == c {
                            assert forall|k: int| 0 <= k < b implies #[trigger] self.framebuffer@[o + k]
                                == color_of(info.pixel_format, g[r2][c2])[k] by {
                                assert(self.framebuffer@[o + k] == color_of(info.pixel_format, row@[c as int])[o + k - wo]);
                            }
                        } else {
                            assert forall|k: int| 0 <= k < b implies #[trigger] self.framebuffer@[o + k]
                                == color_of(info.pixel_format, g[r2][c2])[k] by {
                                lemma_pixels_disjoint(info, x0 + c2, y0 + r2, px as int, py as int, k);
                                assert(self.framebuffer@[o + k] == prev[o + k]);
                            }
                        }
                    }
                }
                c += 1;
            }
            r += 1;
        }
    }

    /// Draws the glyph bitmap `glyph` with its top-left corner at the cursor,
    /// then advances the cursor by one cell.
    fn write_rendered_char(&mut self, glyph: &Vec<Vec<u8>>)
        requires
            old(self).wf(),
            glyph_shaped(glyph.deep_view()),
            old(self).x() + CHAR_RASTER_WIDTH <= old(self).info().width,
            old(self).y() + CHAR_RASTER_HEIGHT <= old(self).info().height,
        ensures
            final(self).wf(),
            final(self).info() == old(self).info(),
            final(self).x() == old(self).x() + CELL_WIDTH,
            final(self).y() == old(self).y(),
            final(self).buf().len() == old(self).buf().len(),
            glyph_drawn(final(self).buf(), old(self).info(), old(self).x(), old(self).y(), glyph.deep_view()),
            unchanged_outside(
                old(self).buf(),
                final(self).buf(),
                old(self).info(),
                old(self).x(),
                old(self).y(),
                CHAR_RASTER_HEIGHT as int,
            ),
    {
        self.paint_cell(self.x_pos, self.y_pos, glyph, CHAR_RASTER_HEIGHT);
        self.x_pos = self.x_pos + CHAR_RASTER_WIDTH + LETTER_SPACING;
    }

    /// Writes a single char to the framebuffer. Takes care of special
    /// control characters, such as newlines and carriage returns.
    pub fn write_char(&mut self, c: char)
        requires
            old(self).wf(),
            old(self).y() + LINE_HEIGHT <= usize::MAX,
        ensures
            final(self).wf(),
            final(self).info() == old(self).info(),
            (final(self).x(), final(self).y()) == cursor_after_char(
                old(self).info(),
                old(self).x(),
                old(self).y(),
                c,
            ),
            final(self).buf().len() == old(self).buf().len(),
            final(self).buf() == buffer_after_char(old(self).info(), old(self).buf(), old(self).x(), old(self).y(), c),
            c == '\n' || c == '\r' ==> final(self).buf() == old(self).buf(),
            c != '\n' && c != '\r' ==> {
                let o = glyph_origin(old(self).info(), old(self).x(), old(self).y());
                &&& glyph_drawn(final(self).buf(), old(self).info(), o.0, o.1, glyph_of(c))
                &&& o.2 ==> zero_outside(final(self).buf(), old(self).info(), o.0, o.1, CHAR_RASTER_HEIGHT as int)
                &&& !o.2 ==> unchanged_outside(
                    old(self).buf(),
                    final(self).buf(),
                    old(self).info(),
                    o.0,
                    o.1,
                    CHAR_RASTER_HEIGHT as int,
                )
            },
    {
        if c == '\n' {
            self.newline();
        } else if c == '\r' {
            self.carriage_return();
        } else {
            if self.x_pos >= self.width() - CHAR_RASTER_WIDTH {
                self.newline();
            }
            if self.y_pos >= self.height() - (CHAR_RASTER_HEIGHT + BORDER_PADDING) {
                self.clear();
            }
            let ghost o = glyph_origin(self.info, old(self).x(), old(self).y());
            let glyph = get_char_raster(c);
            self.write_rendered_char(&glyph);
            proof {
                let info = self.info;
                let g = glyph_of(c);
                let after = self.framebuffer@;
                assert forall|i: int| 0 <= i < after.len() implies #[trigger] after[i]
                    == buffer_after_char(info, old(self).framebuffer@, old(self).x(), old(self).y(), c)[i] by {
                    if in_cell(info, o.0, o.1, CHAR_RASTER_HEIGHT as int, i) {
                        let (r, cc) = choose|r: int, cc: int|
                            0 <= r < CHAR_RASTER_HEIGHT && 0 <= cc < CHAR_RASTER_WIDTH
                                && #[trigger] in_pixel(info, o.0 + cc, o.1 + r, i);
                        let k = i - pixel_offset(info, o.0 + cc, o.1 + r);
                        assert(pixel_holds(after, info, o.0 + cc, o.1 + r, g[r][cc]));
                        assert(after[pixel_offset(info, o.0 + cc, o.1 + r) + k]
                            == color_of(info.pixel_format, g[r][cc])[k]);
                    }
                }
                assert(after =~= buffer_after_char(info, old(self).framebuffer@, old(self).x(), old(self).y(), c));
            }
        }
    }

    /// Writes every character of `s`, as `write_char` does.
    pub fn write_str(&mut self, s: &str)
        requires
            old(self).wf(),
            old(self).y() + 1 + LINE_HEIGHT * s@.len() <= usize::MAX,
        ensures
            final(self).wf(),
            final(self).info() == old(self).info(),
            (final(self).x(), final(self).y()) == cursor_after_text(
                old(self).info(),
                old(self).x(),
                old(self).y(),
                s@,
            ),
            final(self).buf() == buffer_after_text(
                old(self).info(),
                old(self).buf(),
                old(self).x(),
                old(self).y(),
                s@,
            ),
            final(self).buf().len() == old(self).buf().len(),
    {
        let n = s.unicode_len();
        let mut i: usize = 0;
        while i < n
            invariant
                self.wf(),
                self.info == old(self).info,
                self.framebuffer@.len() == old(self).framebuffer@.len(),
                n == s@.len(),
                i <= n,
                old(self).y() + 1 + LINE_HEIGHT * n <= usize::MAX,
                self.y() <= old(self).y() + 1 + LINE_HEIGHT * i,
                (self.x(), self.y()) == cursor_after_text(
                    old(self).info(),
                    old(self).x(),
                    old(self).y(),
                    s@.subrange(0, i as int),
                ),
                self.framebuffer@ == buffer_after_text(
                    old(self).info,
                    old(self).framebuffer@,
                    old(self).x(),
                    old(self).y(),
                    s@.subrange(0, i as int),
                ),
            decreases n - i,
        {
            let c = s.get_char(i);
            proof {
                assert(LINE_HEIGHT * i + LINE_HEIGHT <= LINE_HEIGHT * n) by (nonlinear_arith)
                    requires i < n;
                assert(s@.subrange(0, i + 1).drop_last() =~= s@.subrange(0, i as int));
            }
            self.write_char(c);
            proof {
                assert(LINE_HEIGHT * (i + 1) == LINE_HEIGHT * i + LINE_HEIGHT) by (nonlinear_arith);
            }
            i += 1;
        }
        assert(s@.subrange(0, n as int) =~= s@);
    }

    /// Moves the cursor back one cell and blanks that cell, unless the
    /// cursor stands at the left margin, where nothing changes. It never
    /// goes back to the previous line.
    pub fn backspace(&mut self)
        requires
            old(self).wf(),
        ensures
            final(self).wf(),
            final(self).info() == old(self).info(),
            final(self).y() == old(self).y(),
            final(self).buf().len() == old(self).buf().len(),
            final(self).x() == x_after_backspace(old(self).x()),
            final(self).buf() == buffer_after_backspace(old(self).info(), old(self).buf(), old(self).x(), old(self).y()),
            old(self).x() < BORDER_PADDING + CHAR_RASTER_WIDTH ==> final(self).x() == old(self).x()
                && final(self).buf() == old(self).buf(),
            old(self).x() >= BORDER_PADDING + CHAR_RASTER_WIDTH ==> final(self).x() == old(self).x()
                - CELL_WIDTH && rows_drawn(
                final(self).buf(),
                old(self).info(),
                final(self).x(),
                old(self).y(),
                blank_glyph(),
                visible_rows(old(self).info(), old(self).y()),
            ) && unchanged_outside(
                old(self).buf(),
                final(self).buf(),
                old(self).info(),
                final(self).x(),
                old(self).y(),
                visible_rows(old(self).info(), old(self).y()),
            ),
    {
        if self.x_pos >= BORDER_PADDING + CHAR_RASTER_WIDTH {
            self.x_pos = self.x_pos - (CHAR_RASTER_WIDTH + LETTER_SPACING);
            let height = self.height();
            if self.y_pos < height {
                let rows = if height - self.y_pos < CHAR_RASTER_HEIGHT {
                    height - self.y_pos
                } else {
                    CHAR_RASTER_HEIGHT
                };
                let blank = blank_raster();
                self.paint_cell(self.x_pos, self.y_pos, &blank, rows);
                proof {
                    let info = self.info;
                    let after = self.framebuffer@;
                    let (x0, y0) = (self.x_pos as int, self.y_pos as int);
                    assert forall|i: int| 0 <= i < after.len() implies #[trigger] after[i]
                        == buffer_after_backspace(info, old(self).framebuffer@, old(self).x(), old(self).y())[i] by {
                        if in_cell(info, x0, y0, rows as int, i) {
                            let (r, cc) = choose|r: int, cc: int|
                                0 <= r < rows && 0 <= cc < CHAR_RASTER_WIDTH
                                    && #[trigger] in_pixel(info, x0 + cc, y0 + r, i);
                            let k = i - pixel_offset(info, x0 + cc, y0 + r);
                            assert(pixel_holds(after, info, x0 + cc, y0 + r, blank_glyph()[r][cc]));
                            assert(after[pixel_offset(info, x0 + cc, y0 + r) + k]
                                == color_of(info.pixel_format, 0u8)[k]);
                        }
                    }
                    assert(after =~= buffer_after_backspace(info, old(self).framebuffer@, old(self).x(), old(self).y()));
                }
            }
        }
    }

    /// The cursor position, in pixels, as (x, y).
    pub fn cursor(&self) -> (r: (usize, usize))
        ensures
            r.0 == self.x(),
            r.1 == self.y(),
    {
        (self.x_pos, self.y_pos)
    }

    /// The bytes of the framebuffer.
    pub fn framebuffer(&self) -> (r: &[u8])
        ensures
            r@ == self.buf(),
    {
        self.framebuffer.as_slice()
    }

    /// Shows a decoded key: the backspace character erases the last cell,
    /// any other character is written, and a key without a character is
    /// written by its name.
    pub fn handle_key(&mut self, key: &Key)
        requires
            old(self).wf(),
            old(self).y() + 1 + LINE_HEIGHT * key_text_len(*key) <= usize::MAX,
        ensures
            final(self).wf(),
            final(self).info() == old(self).info(),
            final(self).buf().len() == old(self).buf().len(),
            shows_key(*old(self), *final(self), *key),
    {
        match key {
            Key::Unicode(c) => {
                if *c == '\u{8}' {
                    self.backspace();
                } else {
                    self.write_char(*c);
                }
            },
            Key::RawKey(name) => {
                self.write_str(name.as_str());
            },
        }
    }

    /// Writes the color of `intensity` into the bytes of pixel (x, y).
    pub fn write_pixel(&mut self, x: usize, y: usize, intensity: u8)
        requires
            old(self).wf(),
            x < old(self).info().width,
            y < old(self).info().height,
        ensures
            final(self).wf(),
            final(self).info() == old(self).info(),
            final(self).x() == old(self).x(),
            final(self).y() == old(self).y(),
            final(self).buf().len() == old(self).buf().len(),
            forall|i: int|
                0 <= i < old(self).buf().len() ==> #[trigger] final(self).buf()[i] == if pixel_offset(
                    old(self).info(),
                    x as int,
                    y as int,
                ) <= i < pixel_offset(old(self).info(), x as int, y as int)
                    + old(self).info().bytes_per_pixel {
                    color_of(old(self).info().pixel_format, intensity)[i - pixel_offset(
                        old(self).info(),
                        x as int,
                        y as int,
                    )]
                } else {
                    old(self).buf()[i]
                },
    {
        proof {
            lemma_pixel_in_buffer(self.info, x as int, y as int);
        }
        let len = self.framebuffer.len();
        let pixel_index = y * self.info.stride + x;
        let color: [u8; 4] = match self.info.pixel_format {
            PixelFormat::Rgb => [intensity, intensity, intensity / 2, 0],
            PixelFormat::Bgr => [intensity / 2, intensity, intensity, 0],
            PixelFormat::U8 => [if intensity > 200 { 0xf } else { 0 }, 0, 0, 0],
            PixelFormat::Unknown { .. } => [0, 0, 0, 0],
        };
        assert(color@ =~= color_of(self.info.pixel_format, intensity));
        let bytes_per_pixel = self.info.bytes_per_pixel;
        let byte_offset = pixel_index * bytes_per_pixel;
        let ghost before = self.framebuffer@;
        let mut k: usize = 0;
        while k < bytes_per_pixel
            invariant
                self.info == old(self).info,
                self.x_pos == old(self).x_pos,
                self.y_pos == old(self).y_pos,
                before == old(self).framebuffer@,
                bytes_per_pixel == self.info.bytes_per_pixel,
                bytes_per_pixel <= 4,
                byte_offset == pixel_offset(self.info, x as int, y as int),
                byte_offset + bytes_per_pixel <= len,
                len == before.len(),
                self.framebuffer@.len() == before.len(),
                k <= bytes_per_pixel,
                forall|i: int|
                    0 <= i < before.len() ==> #[trigger] self.framebuffer@[i] == if byte_offset <= i
                        < byte_offset + k {
                        color@[i - byte_offset]
                    } else {
                        before[i]
                    },
            decreases bytes_per_pixel - k,
        {
            self.framebuffer.set(byte_offset + k, color[k]);
            k += 1;
        }
    }
}

/// Writes `text` to the console, where there is one.
pub fn printx(console: &mut Option<FrameBufferWriter>, text: &str)
    requires
        *old(console) matches Some(w) ==> w.wf() && w.y() + 1 + LINE_HEIGHT * text@.len() <= usize::MAX,
    ensures
        *old(console) is None ==> *final(console) is None,
        *old(console) matches Some(w) ==> *final(console) matches Some(v) && v.wf() && v.info() == w.info()
            && (v.x(), v.y()) == cursor_after_text(w.info(), w.x(), w.y(), text@)
            && v.buf() == buffer_after_text(w.info(), w.buf(), w.x(), w.y(), text@)
            && v.buf().len() == w.buf().len(),
{
    if let Some(writer) = console {
        writer.write_str(text);
    }
}

} // verus!
