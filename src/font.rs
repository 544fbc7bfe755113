use vstd::prelude::*;

verus! {

/// Height in pixels of every rasterized glyph.
pub const CHAR_RASTER_HEIGHT: usize = 16;

/// Width in pixels of every rasterized glyph (regular weight, 16 px raster).
pub const CHAR_RASTER_WIDTH: usize = 9;

/// Character drawn in place of one the font does not know.
pub const BACKUP_CHAR: char = '?';

/// The bitmap that the font crate holds for `c`, one row of intensities per
/// pixel line, or `None` where the font has no glyph for it.
pub uninterp spec fn raster_of(c: char) -> Option<Seq<Seq<u8>>>;

/// A glyph bitmap has `CHAR_RASTER_HEIGHT` rows of `CHAR_RASTER_WIDTH` bytes.
pub open spec fn glyph_shaped(g: Seq<Seq<u8>>) -> bool {
    &&& g.len() == CHAR_RASTER_HEIGHT
    &&& forall|r: int| 0 <= r < g.len() ==> (#[trigger] g[r]).len() == CHAR_RASTER_WIDTH
}

/// The glyph drawn for `c`: its own bitmap, or that of `BACKUP_CHAR`.
pub open spec fn glyph_of(c: char) -> Seq<Seq<u8>> {
    match raster_of(c) {
        Some(g) => g,
        None => raster_of(BACKUP_CHAR)->0,
    }
}

/// Relies on noto_sans_mono_bitmap::get_raster at regular weight and 16 px:
/// the bitmap is `height * width` bytes, 16 rows of the font's width 9, and
/// the basic Latin range (with `?`) is built in.
#[verifier::external_body]
fn lookup_raster(c: char) -> (r: Option<Vec<Vec<u8>>>)
    ensures
        r is Some <==> raster_of(c) is Some,
        r matches Some(v) ==> v.deep_view() == raster_of(c)->0,
        r matches Some(v) ==> glyph_shaped(v.deep_view()),
        c == BACKUP_CHAR ==> r is Some,
{
    noto_sans_mono_bitmap::get_raster(
        c,
        noto_sans_mono_bitmap::FontWeight::Regular,
        noto_sans_mono_bitmap::RasterHeight::Size16,
    ).map(|g| g.raster().iter().map(|row| row.to_vec()).collect())
}

/// Returns the raster of `c`, or the raster of `BACKUP_CHAR` where the font
/// has none.
pub fn get_char_raster(c: char) -> (r: Vec<Vec<u8>>)
    ensures
        r.deep_view() == glyph_of(c),
        glyph_shaped(r.deep_view()),
{
    match lookup_raster(c) {
        Some(g) => g,
        None => lookup_raster(BACKUP_CHAR).unwrap(),
    }
}

} // verus!
