//! The raster data model: a width x height grid of 4-channel (R, G, B, A)
//! 8-bit samples, stored row-major as one flat byte vector.

use vstd::prelude::*;

verus! {

/// Flat position of channel `c` of the pixel at column `x`, row `y` in a
/// grid `w` pixels wide.
pub open spec fn grid_pos(y: int, x: int, c: int, w: int) -> int {
    4 * (y * w + x) + c
}

/// A decoded raster image.  Owned exclusively by the call that decoded it
/// and consumed once by the encoder.
#[derive(Debug)]
pub struct PixelBuffer {
    pub width: u32,
    pub height: u32,
    pub data: Vec<u8>,
}

impl PixelBuffer {
    /// Well-formed: four bytes for every pixel of the grid.
    pub open spec fn wf(self) -> bool {
        self.data@.len() == 4 * (self.width as int) * (self.height as int)
    }

    /// Channel `c` of the pixel at column `x`, row `y` (0 = R, 1 = G,
    /// 2 = B, 3 = A).
    pub open spec fn chan(self, x: int, y: int, c: int) -> u8
        recommends
            0 <= x < self.width,
            0 <= y < self.height,
            0 <= c < 4,
    {
        self.data@[grid_pos(y, x, c, self.width as int)]
    }
}

} // verus!
