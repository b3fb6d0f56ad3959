//! The persistent output canvas: a caption band of fixed height stacked
//! above the source frame area.

use vstd::prelude::*;
use crate::color::{white, Px};

verus! {

/// Height in rows of the caption band prepended above the frame area.
pub const BAND_HEIGHT: usize = 128;

/// First band row that may carry glyph coverage.
pub const TEXT_TOP: usize = 48;

/// Largest width or source height the canvas accepts; the source format
/// stores dimensions in 16 bits.
pub const MAX_DIM: usize = 0xFFFF;

/// An all-white grid of the given dimensions.
pub open spec fn white_grid(w: int, h: int) -> Seq<Seq<Px>> {
    Seq::new(h as nat, |r: int| Seq::new(w as nat, |c: int| white()))
}

/// The full persistent pixel buffer, stored row by row.
pub struct Canvas {
    pub width: usize,
    pub height: usize,
    pub rows: Vec<Vec<Px>>,
}

impl Canvas {
    /// The canvas as a mathematical grid of pixels, row-major.
    pub open spec fn grid(self) -> Seq<Seq<Px>> {
        self.rows@.map_values(|v: Vec<Px>| v@)
    }

    /// Geometry never changes after initialization: `height` rows of
    /// `width` pixels each, with the band on top.
    pub open spec fn wf(self) -> bool {
        &&& self.width <= MAX_DIM
        &&& self.height <= MAX_DIM + BAND_HEIGHT
        &&& self.height >= BAND_HEIGHT
        &&& self.rows@.len() == self.height
        &&& forall|r: int| 0 <= r < self.height ==> (#[trigger] self.rows@[r])@.len() == self.width
    }

    /// A fresh canvas for a source of the given size: every pixel opaque
    /// white, `BAND_HEIGHT` extra rows on top for the caption band.
    pub fn new(width: usize, source_height: usize) -> (c: Canvas)
        requires
            width <= MAX_DIM,
            source_height <= MAX_DIM,
        ensures
            c.wf(),
            c.width == width,
            c.height == source_height + BAND_HEIGHT,
            forall|r: int, x: int|
                0 <= r < c.height && 0 <= x < width ==> c.grid()[r][x] == white(),
            c.grid() == white_grid(width as int, (source_height + BAND_HEIGHT) as int),
    {
        let height: usize = source_height + BAND_HEIGHT;
        let mut rows: Vec<Vec<Px>> = Vec::new();
        let mut r: usize = 0;
        while r < height
            invariant
                r <= height,
                rows@.len() == r,
                forall|i: int| 0 <= i < r ==> (#[trigger] rows@[i])@.len() == width,
                forall|i: int, x: int|
                    0 <= i < r && 0 <= x < width ==> rows@[i]@[x] == white(),
            decreases height - r,
        {
            let mut row: Vec<Px> = Vec::new();
            let mut x: usize = 0;
            while x < width
                invariant
                    x <= width,
                    row@.len() == x,
                    forall|j: int| 0 <= j < x ==> row@[j] == white(),
                decreases width - x,
            {
                row.push(Px { r: 255, g: 255, b: 255, a: 255 });
                x = x + 1;
            }
            rows.push(row);
            r = r + 1;
        }
        let c = Canvas { width, height, rows };
        proof {
            assert forall|i: int| 0 <= i < height implies c.grid()[i] == white_grid(
                width as int,
                height as int,
            )[i] by {
                assert(c.grid()[i] =~= white_grid(width as int, height as int)[i]);
            }
            assert(c.grid() =~= white_grid(width as int, height as int));
        }
        c
    }

    /// Reads one pixel.
    pub fn px_at(&self, r: usize, x: usize) -> (p: Px)
        requires
            self.wf(),
            r < self.height,
            x < self.width,
        ensures
            p == self.grid()[r as int][x as int],
    {
        self.rows[r][x]
    }

    /// A deep copy of the current pixel rows, for a frame snapshot.
    pub fn snapshot_rows(&self) -> (s: Vec<Vec<Px>>)
        requires
            self.wf(),
        ensures
            s@.map_values(|v: Vec<Px>| v@) == self.grid(),
            s@.len() == self.height,
    {
        let mut s: Vec<Vec<Px>> = Vec::new();
        let mut r: usize = 0;
        while r < self.rows.len()
            invariant
                self.wf(),
                self.rows@.len() == self.height,
                r <= self.height,
                s@.len() == r,
                forall|i: int| 0 <= i < r ==> (#[trigger] s@[i])@ == self.rows@[i]@,
            decreases self.rows@.len() - r,
        {
            let src = &self.rows[r];
            let mut row: Vec<Px> = Vec::new();
            let mut x: usize = 0;
            while x < src.len()
                invariant
                    x <= src@.len(),
                    row@.len() == x,
                    forall|j: int| 0 <= j < x ==> row@[j] == src@[j],
                decreases src@.len() - x,
            {
                row.push(src[x]);
                x = x + 1;
            }
            proof {
                assert(row@ =~= src@);
            }
            s.push(row);
            r = r + 1;
        }
        proof {
            assert(s@.map_values(|v: Vec<Px>| v@) =~= self.grid());
        }
        s
    }
}

} // verus!
