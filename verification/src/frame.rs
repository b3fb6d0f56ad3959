//! One source frame: a palette-indexed partial update of the canvas.

use vstd::prelude::*;
use crate::canvas::{Canvas, BAND_HEIGHT};

verus! {

/// A decoded source frame. Only the rectangle `[left, left+width) x
/// [top, top+height)` of the source area is touched when it is composited;
/// indices equal to `transparent` are skipped.
pub struct Frame {
    pub left: u16,
    pub top: u16,
    pub width: u16,
    pub height: u16,
    pub palette: Option<Vec<u8>>,
    pub transparent: Option<u8>,
    pub pixels: Vec<u8>,
}

impl Frame {
    /// The index buffer is row-major and sized exactly `width * height`.
    pub open spec fn wf(self) -> bool {
        self.pixels@.len() == self.width * self.height
    }

    /// Whether the frame rectangle lies inside the frame area of `c`
    /// (band rows excluded).
    pub open spec fn fits(self, c: Canvas) -> bool {
        &&& BAND_HEIGHT + self.top + self.height <= c.height
        &&& self.left + self.width <= c.width
    }

    /// The palette index of the frame pixel at frame-local row `fy`,
    /// column `fx`.
    pub open spec fn index_at(self, fy: int, fx: int) -> u8 {
        self.pixels@[fy * self.width + fx]
    }

    /// Whether an index is drawn: everything but the transparent index.
    pub open spec fn uses(self, idx: u8) -> bool {
        match self.transparent {
            Some(t) => t != idx,
            None => true,
        }
    }

    /// Reads the palette index at frame-local coordinates.
    pub fn read_index(&self, fy: usize, fx: usize) -> (idx: u8)
        requires
            self.wf(),
            fy < self.height,
            fx < self.width,
        ensures
            idx == self.index_at(fy as int, fx as int),
    {
        let n = self.pixels.len();
        proof {
            assert(fy * self.width + fx < self.width * self.height) by (nonlinear_arith)
                requires
                    0 <= fy < self.height,
                    0 <= fx < self.width,
            ;
            assert(fy * self.width + fx < n);
        }
        self.pixels[fy * (self.width as usize) + fx]
    }
}

} // verus!
