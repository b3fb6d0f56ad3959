//! Rasterized glyphs and the trusted boundary to the font rasterizer.

use vstd::prelude::*;
use crate::color::Px;

verus! {

/// Point size the caption is rasterized at.
pub const FONT_PX: u16 = 48;

/// Bound on the glyph metrics the layout accepts; keeps every layout
/// computation inside machine integers.
pub const MAX_GLYPH_DIM: usize = 0x8000;

/// Which way a coverage value turns into a color.
#[derive(Clone, Copy, PartialEq, Eq, Structural, Debug)]
pub enum TextColor {
    /// Dark glyphs on the light band: each channel is `255 - coverage`.
    Dark,
    /// Light glyphs: each channel is the coverage value itself.
    Light,
}

/// The color one coverage value renders as under a policy.
pub open spec fn color_of(cov: u8, policy: TextColor) -> Px {
    match policy {
        TextColor::Dark => Px {
            r: (255 - cov) as u8,
            g: (255 - cov) as u8,
            b: (255 - cov) as u8,
            a: 255,
        },
        TextColor::Light => Px { r: cov, g: cov, b: cov, a: 255 },
    }
}

/// Renders one coverage value.
pub fn coverage_color(cov: u8, policy: TextColor) -> (p: Px)
    ensures
        p == color_of(cov, policy),
{
    match policy {
        TextColor::Dark => {
            let v: u8 = 255 - cov;
            Px { r: v, g: v, b: v, a: 255 }
        },
        TextColor::Light => Px { r: cov, g: cov, b: cov, a: 255 },
    }
}

/// One rasterized character: layout metrics and a row-major coverage
/// bitmap starting at the top-left corner.
pub struct Glyph {
    pub width: usize,
    pub height: usize,
    pub xmin: i32,
    pub ymin: i32,
    pub coverage: Vec<u8>,
}

impl Glyph {
    /// Coverage length always equals `width * height`, and the metrics are
    /// small enough for the layout arithmetic.
    pub open spec fn wf(self) -> bool {
        &&& self.coverage@.len() == self.width * self.height
        &&& self.width <= MAX_GLYPH_DIM
        &&& self.height <= MAX_GLYPH_DIM
        &&& -(MAX_GLYPH_DIM as int) <= self.xmin <= MAX_GLYPH_DIM as int
        &&& -(MAX_GLYPH_DIM as int) <= self.ymin <= MAX_GLYPH_DIM as int
    }

    /// Horizontal advance from this glyph's origin to the next one's.
    pub open spec fn advance(self) -> int {
        self.width + self.xmin
    }

    /// This glyph's contribution to the line width: its width plus its
    /// left offset clamped at zero.
    pub open spec fn extent(self) -> int {
        self.width + if self.xmin > 0 {
            self.xmin as int
        } else {
            0
        }
    }

    /// Decides well-formedness.
    pub fn check(&self) -> (b: bool)
        ensures
            b == self.wf(),
    {
        if self.width > MAX_GLYPH_DIM || self.height > MAX_GLYPH_DIM {
            return false;
        }
        if self.xmin > MAX_GLYPH_DIM as i32 || self.xmin < -(MAX_GLYPH_DIM as i32) {
            return false;
        }
        if self.ymin > MAX_GLYPH_DIM as i32 || self.ymin < -(MAX_GLYPH_DIM as i32) {
            return false;
        }
        proof {
            assert(self.width * self.height <= 0x4000_0000) by (nonlinear_arith)
                requires
                    self.width <= 0x8000,
                    self.height <= 0x8000,
            ;
        }
        self.coverage.len() == self.width * self.height
    }
}

/// Declares fontdue's parsed-font type, opaque to every contract here.
/// Parsing font bytes is the caller's affair, outside this library: every
/// value of this type was accepted by fontdue's own parser.
#[verifier::external_type_specification]
#[verifier::external_body]
pub struct ExFont(fontdue::Font);

/// Relies on fontdue::Font::rasterize: the coverage bitmap of one
/// character at a point size, row-major from the top-left corner, sized
/// exactly `metrics.width * metrics.height` (an unknown character yields
/// the font's default glyph). On a font that fontdue's parser accepted,
/// the call returns normally for every character and size.
#[verifier::external_body]
pub(crate) fn rasterize_char(font: &fontdue::Font, character: char, px: u16) -> (g: Glyph)
    ensures
        g.coverage@.len() == g.width * g.height,
{
    let (m, coverage) = font.rasterize(character, px.into());
    Glyph { width: m.width, height: m.height, xmin: m.xmin, ymin: m.ymin, coverage }
}

} // verus!
