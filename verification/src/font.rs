//! Glyphs as the renderer takes them from a font: a coverage bitmap and the
//! measures that place it.

use vstd::prelude::*;

verus! {

/// One rasterized character: `width * height` coverage bytes in rows from
/// the top, the offset of the bitmap from the pen position, and the
/// distance in cells by which the pen moves on.
pub struct RasterizedFont {
    pub width: usize,
    pub height: usize,
    pub xmin: i32,
    pub ymin: i32,
    pub advance_width: i32,
    pub data: Vec<u8>,
}

impl RasterizedFont {
    /// There is one coverage byte for each cell of the bitmap.
    pub open spec fn wf(&self) -> bool {
        self.data@.len() == self.width * self.height
    }

    /// Whether there is one coverage byte for each cell of the bitmap.
    pub fn is_wf(&self) -> (wf: bool)
        ensures
            wf == self.wf(),
    {
        let bytes: usize = self.data.len();
        match self.width.checked_mul(self.height) {
            Some(cells) => bytes == cells,
            None => false,
        }
    }
}

} // verus!
