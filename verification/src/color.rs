//! RGBA pixel values and palette lookup.

use vstd::prelude::*;

verus! {

/// One canvas pixel: four 8-bit channels.
#[derive(Clone, Copy, PartialEq, Eq, Structural, Debug)]
pub struct Px {
    pub r: u8,
    pub g: u8,
    pub b: u8,
    pub a: u8,
}

/// The color a palette assigns to index `idx`: the RGB triple at
/// `3*idx`, fully opaque.
pub open spec fn palette_color(palette: Seq<u8>, idx: int) -> Px {
    Px {
        r: palette[3 * idx],
        g: palette[3 * idx + 1],
        b: palette[3 * idx + 2],
        a: 255,
    }
}

/// Whether index `idx` has a full RGB triple inside `palette`.
pub open spec fn palette_has(palette: Seq<u8>, idx: int) -> bool {
    0 <= idx && 3 * idx + 3 <= palette.len()
}

/// Opaque white, the color the canvas starts out as.
pub open spec fn white() -> Px {
    Px { r: 255, g: 255, b: 255, a: 255 }
}

/// Looks the index up in a palette of packed RGB triples.
pub fn lookup_palette(palette: &Vec<u8>, idx: u8) -> (c: Px)
    requires
        palette_has(palette@, idx as int),
    ensures
        c == palette_color(palette@, idx as int),
{
    let i: usize = (idx as usize) * 3;
    Px { r: palette[i], g: palette[i + 1], b: palette[i + 2], a: 255 }
}

} // verus!
