//! Laying out a rasterized caption line and blitting it into the band.

use vstd::prelude::*;
use crate::canvas::{Canvas, BAND_HEIGHT, MAX_DIM, TEXT_TOP};
use crate::color::Px;
use crate::errors::CaptionError;
use crate::glyph::{color_of, coverage_color, rasterize_char, Glyph, TextColor, FONT_PX};
use crate::glyph::MAX_GLYPH_DIM;

verus! {

/// Longest caption the layout accepts; keeps the cumulative offsets inside
/// machine integers.
pub const MAX_CAPTION_LEN: usize = 0xFFFF;

/// Width of a glyph line: the sum of each glyph's width plus its left
/// offset clamped at zero.
pub open spec fn line_width(gs: Seq<Glyph>) -> int
    decreases gs.len(),
{
    if gs.len() == 0 {
        0
    } else {
        line_width(gs.drop_last()) + gs.last().extent()
    }
}

/// Height of a glyph line: the greatest glyph height.
pub open spec fn line_height(gs: Seq<Glyph>) -> int
    decreases gs.len(),
{
    if gs.len() == 0 {
        0
    } else {
        let rest = line_height(gs.drop_last());
        if gs.last().height > rest {
            gs.last().height as int
        } else {
            rest
        }
    }
}

/// Sum of the glyphs' horizontal advances.
pub open spec fn line_advance(gs: Seq<Glyph>) -> int
    decreases gs.len(),
{
    if gs.len() == 0 {
        0
    } else {
        line_advance(gs.drop_last()) + gs.last().advance()
    }
}

/// Horizontal padding that centers a line of width `total` on a canvas of
/// width `cw`; negative when the line overflows (the blit then clips it).
pub open spec fn padding_of(cw: int, total: int) -> int {
    if total <= cw {
        (cw - total) / 2
    } else {
        -((total - cw) / 2)
    }
}

pub open spec fn glyphs_wf(gs: Seq<Glyph>) -> bool {
    forall|i: int| 0 <= i < gs.len() ==> (#[trigger] gs[i]).wf()
}

pub proof fn lemma_line_height_bound(gs: Seq<Glyph>)
    requires
        glyphs_wf(gs),
    ensures
        0 <= line_height(gs) <= MAX_GLYPH_DIM,
    decreases gs.len(),
{
    if gs.len() == 0 {
    } else {
        assert(glyphs_wf(gs.drop_last()));
        lemma_line_height_bound(gs.drop_last());
        assert(gs.last().wf());
    }
}

pub proof fn lemma_line_advance_bound(gs: Seq<Glyph>)
    requires
        glyphs_wf(gs),
    ensures
        -(gs.len() * 0x8000) <= line_advance(gs) <= gs.len() * 0x10000,
    decreases gs.len(),
{
    if gs.len() == 0 {
    } else {
        assert(glyphs_wf(gs.drop_last()));
        lemma_line_advance_bound(gs.drop_last());
        assert(gs.last().wf());
    }
}

/// Centering: a caption no wider than the canvas gets a non-negative
/// padding, fits, and its left and right margins differ by at most one
/// pixel.
pub proof fn lemma_centering(cw: int, total: int)
    requires
        0 <= total <= cw,
    ensures
        padding_of(cw, total) >= 0,
        padding_of(cw, total) + total <= cw,
        padding_of(cw, total) <= cw - (padding_of(cw, total) + total),
        cw - (padding_of(cw, total) + total) <= padding_of(cw, total) + 1,
{
}

/// The glyph-local coverage row feeding canvas row `r`, for a line of
/// height `th`.
pub open spec fn gi_of(g: Glyph, th: int, r: int) -> int {
    r - TEXT_TOP - th + g.height + g.ymin
}

/// Whether the glyph's vertical coverage overlaps canvas row `r`.
pub open spec fn glyph_hits_row(g: Glyph, th: int, r: int) -> bool {
    &&& TEXT_TOP <= r < BAND_HEIGHT
    &&& 0 <= gi_of(g, th, r) < g.height
}

/// The grid after one glyph is blitted with its origin at column `x`:
/// inside the band, every in-bounds cell of the glyph's rectangle takes
/// its coverage color; everything else is untouched.
pub open spec fn blit_glyph(
    prev: Seq<Seq<Px>>,
    g: Glyph,
    x: int,
    th: int,
    policy: TextColor,
) -> Seq<Seq<Px>> {
    Seq::new(
        prev.len(),
        |r: int|
            if glyph_hits_row(g, th, r) {
                Seq::new(
                    prev[r].len(),
                    |c: int|
                        if x <= c < x + g.width {
                            color_of(g.coverage@[gi_of(g, th, r) * g.width + (c - x)], policy)
                        } else {
                            prev[r][c]
                        },
                )
            } else {
                prev[r]
            },
    )
}

/// The grid after the glyphs from position `j` on are blitted left to
/// right, the first at column `x`, each next one an advance further.
pub open spec fn blit_from(
    prev: Seq<Seq<Px>>,
    gs: Seq<Glyph>,
    j: int,
    x: int,
    th: int,
    policy: TextColor,
) -> Seq<Seq<Px>>
    decreases gs.len() - j,
{
    if gs.len() <= j {
        prev
    } else {
        blit_from(
            blit_glyph(prev, gs[j], x, th, policy),
            gs,
            j + 1,
            x + gs[j].advance(),
            th,
            policy,
        )
    }
}

/// The grid after a whole caption line is rendered, centered.
pub open spec fn rendered_band(
    prev: Seq<Seq<Px>>,
    line: CaptionLine,
    cw: int,
    policy: TextColor,
) -> Seq<Seq<Px>> {
    blit_from(
        prev,
        line.glyphs@,
        0,
        padding_of(cw, line.total_width as int),
        line.total_height as int,
        policy,
    )
}

/// Rendering the caption touches only rows `TEXT_TOP..BAND_HEIGHT`: every
/// other row of the grid is exactly its prior value.
pub proof fn lemma_blit_keeps_other_rows(
    prev: Seq<Seq<Px>>,
    gs: Seq<Glyph>,
    j: int,
    x: int,
    th: int,
    policy: TextColor,
)
    ensures
        blit_from(prev, gs, j, x, th, policy).len() == prev.len(),
        forall|r: int|
            0 <= r < prev.len() && !(TEXT_TOP <= r < BAND_HEIGHT)
                ==> #[trigger] blit_from(prev, gs, j, x, th, policy)[r] == prev[r],
    decreases gs.len() - j,
{
    if gs.len() <= j {
    } else {
        let step = blit_glyph(prev, gs[j], x, th, policy);
        lemma_blit_keeps_other_rows(step, gs, j + 1, x + gs[j].advance(), th, policy);
        assert forall|r: int|
            0 <= r < prev.len() && !(TEXT_TOP <= r < BAND_HEIGHT) implies #[trigger] step[r]
            == prev[r] by {
            assert(!glyph_hits_row(gs[j], th, r));
        }
    }
}

/// An ordered caption line with its derived layout totals.
pub struct CaptionLine {
    pub glyphs: Vec<Glyph>,
    pub total_width: u32,
    pub total_height: u32,
}

impl CaptionLine {
    pub open spec fn wf(self) -> bool {
        &&& self.glyphs@.len() <= MAX_CAPTION_LEN
        &&& glyphs_wf(self.glyphs@)
        &&& self.total_width == line_width(self.glyphs@)
        &&& self.total_height == line_height(self.glyphs@)
    }

    /// Lays a glyph sequence out as one line, computing the totals. `None`
    /// exactly when the line is too long or a glyph is out of bounds.
    pub fn from_glyphs(glyphs: Vec<Glyph>) -> (r: Option<CaptionLine>)
        ensures
            r is Some <==> glyphs@.len() <= MAX_CAPTION_LEN && glyphs_wf(glyphs@),
            r is Some ==> r.unwrap().wf() && r.unwrap().glyphs@ == glyphs@,
    {
        if glyphs.len() > MAX_CAPTION_LEN {
            return None;
        }
        let mut tw: u64 = 0;
        let mut th: u32 = 0;
        let mut j: usize = 0;
        while j < glyphs.len()
            invariant
                j <= glyphs@.len(),
                glyphs@.len() <= MAX_CAPTION_LEN,
                forall|i: int| 0 <= i < j ==> (#[trigger] glyphs@[i]).wf(),
                tw == line_width(glyphs@.take(j as int)),
                th == line_height(glyphs@.take(j as int)),
                tw <= j * 0x10000,
                th <= MAX_GLYPH_DIM,
            decreases glyphs@.len() - j,
        {
            let g = &glyphs[j];
            if !g.check() {
                return None;
            }
            let e: u64 = (g.width as u64) + (if g.xmin > 0 {
                g.xmin as u64
            } else {
                0
            });
            proof {
                assert(glyphs@.take(j + 1).drop_last() =~= glyphs@.take(j as int));
                assert(glyphs@.take(j + 1).last() == glyphs@[j as int]);
            }
            tw = tw + e;
            if (g.height as u64) > (th as u64) {
                th = g.height as u32;
            }
            j = j + 1;
        }
        proof {
            assert(glyphs@.take(glyphs@.len() as int) =~= glyphs@);
        }
        Some(CaptionLine { glyphs, total_width: tw as u32, total_height: th })
    }

    /// Rasterizes a caption with an already-parsed font into a laid-out
    /// line: one glyph per character, in order. Fails with `FontLoad`
    /// exactly when a rasterized glyph exceeds the layout's metric
    /// bounds; an empty caption always succeeds.
    pub fn build(font: &fontdue::Font, caption: &Vec<char>) -> (r: Result<
        CaptionLine,
        CaptionError,
    >)
        requires
            caption@.len() <= MAX_CAPTION_LEN,
        ensures
            r is Ok ==> r.unwrap().wf() && r.unwrap().glyphs@.len() == caption@.len(),
            r is Err ==> r == Err::<CaptionLine, CaptionError>(CaptionError::FontLoad),
            caption@.len() == 0 ==> r is Ok,
    {
        let mut glyphs: Vec<Glyph> = Vec::new();
        let mut j: usize = 0;
        while j < caption.len()
            invariant
                j <= caption@.len(),
                caption@.len() <= MAX_CAPTION_LEN,
                glyphs@.len() == j,
                glyphs_wf(glyphs@),
            decreases caption@.len() - j,
        {
            let g = rasterize_char(font, caption[j], FONT_PX);
            if !g.check() {
                return Err(CaptionError::FontLoad);
            }
            glyphs.push(g);
            j = j + 1;
        }
        match CaptionLine::from_glyphs(glyphs) {
            Some(line) => Ok(line),
            None => Err(CaptionError::FontLoad),
        }
    }
}

/// The centering padding, as the blit uses it.
pub fn compute_padding(cw: usize, total: u32) -> (p: i64)
    requires
        cw <= MAX_DIM,
    ensures
        p == padding_of(cw as int, total as int),
        -0x8000_0000 <= p <= 0x8000,
{
    if (total as u64) <= (cw as u64) {
        (((cw as u64) - (total as u64)) / 2) as i64
    } else {
        -((((total as u64) - (cw as u64)) / 2) as i64)
    }
}

/// Blits one glyph with its origin at column `x`, clipped to the canvas.
fn blit_one(canvas: &mut Canvas, g: &Glyph, x: i64, th: u32, policy: TextColor)
    requires
        old(canvas).wf(),
        g.wf(),
        th <= MAX_GLYPH_DIM,
        -0x1_0000_0000 <= x <= 0x2_0000_0000,
    ensures
        final(canvas).wf(),
        final(canvas).width == old(canvas).width,
        final(canvas).height == old(canvas).height,
        final(canvas).grid() == blit_glyph(old(canvas).grid(), *g, x as int, th as int, policy),
{
    let ghost g0 = canvas.grid();
    let ghost target = blit_glyph(g0, *g, x as int, th as int, policy);
    let cw = canvas.width;
    let w = g.width;
    let h = g.height;
    let mut i: usize = 0;
    while i < BAND_HEIGHT - TEXT_TOP
        invariant
            canvas.wf(),
            canvas.width == old(canvas).width,
            canvas.height == old(canvas).height,
            g.wf(),
            th <= MAX_GLYPH_DIM,
            -0x1_0000_0000 <= x <= 0x2_0000_0000,
            i <= BAND_HEIGHT - TEXT_TOP,
            cw == canvas.width,
            w == g.width,
            h == g.height,
            g0 == old(canvas).grid(),
            target == blit_glyph(g0, *g, x as int, th as int, policy),
            g0.len() == canvas.height,
            forall|r: int| 0 <= r < g0.len() ==> (#[trigger] g0[r]).len() == cw,
            forall|r: int|
                0 <= r < g0.len() ==> #[trigger] canvas.grid()[r] == (if r < TEXT_TOP + i {
                    target[r]
                } else {
                    g0[r]
                }),
        decreases BAND_HEIGHT - TEXT_TOP - i,
    {
        let r = TEXT_TOP + i;
        let gi: i64 = (i as i64) - (th as i64) + (h as i64) + (g.ymin as i64);
        proof {
            assert(gi == gi_of(*g, th as int, r as int));
        }
        if 0 <= gi && gi < h as i64 {
            let start: i64 = if x < 0 {
                -x
            } else {
                0
            };
            let end_full: i64 = (cw as i64) - x;
            let end: i64 = if (w as i64) < end_full {
                w as i64
            } else {
                end_full
            };
            let ghost row0 = canvas.grid()[r as int];
            let mut k: i64 = start;
            while k < end
                invariant
                    canvas.wf(),
                    canvas.width == old(canvas).width,
                    canvas.height == old(canvas).height,
                    g.wf(),
                    th <= MAX_GLYPH_DIM,
                    -0x1_0000_0000 <= x <= 0x2_0000_0000,
                    i < BAND_HEIGHT - TEXT_TOP,
                    r == TEXT_TOP + i,
                    gi == gi_of(*g, th as int, r as int),
                    0 <= gi < h,
                    cw == canvas.width,
                    w == g.width,
                    h == g.height,
                    start == (if x < 0 { -x } else { 0 }),
                    end <= w as i64,
                    end <= cw as i64 - x,
                    w as i64 <= end || end == cw as i64 - x,
                    start <= k,
                    k <= end || k == start,
                    g0 == old(canvas).grid(),
                    target == blit_glyph(g0, *g, x as int, th as int, policy),
                    g0.len() == canvas.height,
                    forall|rr: int| 0 <= rr < g0.len() ==> (#[trigger] g0[rr]).len() == cw,
                    row0 == g0[r as int],
                    forall|rr: int|
                        0 <= rr < g0.len() && rr != r ==> #[trigger] canvas.grid()[rr] == (if rr
                            < TEXT_TOP + i {
                            target[rr]
                        } else {
                            g0[rr]
                        }),
                    canvas.grid()[r as int].len() == cw,
                    forall|c: int|
                        0 <= c < cw ==> #[trigger] canvas.grid()[r as int][c] == (if x + start <= c
                            < x + k {
                            target[r as int][c]
                        } else {
                            row0[c]
                        }),
                decreases end - k,
            {
                let col = (x + k) as usize;
                proof {
                    assert(gi * w + k < h as int * w as int) by (nonlinear_arith)
                        requires
                            0 <= gi < h as int,
                            0 <= k < w as int,
                            0 <= w,
                    ;
                    assert(0 <= gi * w) by (nonlinear_arith)
                        requires
                            0 <= gi,
                            0 <= w,
                    ;
                    assert(h as int * w as int <= 0x4000_0000) by (nonlinear_arith)
                        requires
                            0 <= h <= MAX_GLYPH_DIM,
                            0 <= w <= MAX_GLYPH_DIM,
                    ;
                }
                let cov_idx = (gi * (w as i64) + k) as usize;
                let cov = g.coverage[cov_idx];
                let px = coverage_color(cov, policy);
                let ghost gpre = canvas.grid();
                canvas.rows[r][col] = px;
                proof {
                    assert(canvas.grid()[r as int] =~= gpre[r as int].update(col as int, px));
                    assert forall|rr: int| 0 <= rr < g0.len() && rr != r implies #[trigger] canvas.grid()[rr]
                        == gpre[rr] by {}
                    assert(glyph_hits_row(*g, th as int, r as int));
                    assert(target[r as int][col as int] == color_of(
                        g.coverage@[gi_of(*g, th as int, r as int) * g.width + (col - x)],
                        policy,
                    ));
                    assert(gi_of(*g, th as int, r as int) * g.width + (col - x) == gi * w + k);
                    assert forall|c: int| 0 <= c < cw implies #[trigger] canvas.grid()[r as int][c]
                        == (if x + start <= c < x + k + 1 {
                        target[r as int][c]
                    } else {
                        row0[c]
                    }) by {
                        if c != col {
                            assert(canvas.grid()[r as int][c] == gpre[r as int][c]);
                        }
                    }
                }
                k = k + 1;
            }
            proof {
                assert forall|c: int| 0 <= c < cw implies canvas.grid()[r as int][c]
                    == target[r as int][c] by {
                    if x + start <= c < x + k {
                    } else {
                        assert(canvas.grid()[r as int][c] == row0[c]);
                        assert(!(x <= c < x + w as int));
                    }
                }
                assert(canvas.grid()[r as int] =~= target[r as int]);
            }
        } else {
            proof {
                assert(!glyph_hits_row(*g, th as int, r as int));
                assert(target[r as int] == g0[r as int]);
            }
        }
        proof {
            assert forall|rr: int| 0 <= rr < g0.len() implies #[trigger] canvas.grid()[rr] == (if rr
                < TEXT_TOP + i + 1 {
                target[rr]
            } else {
                g0[rr]
            }) by {}
        }
        i = i + 1;
    }
    proof {
        assert forall|r: int| 0 <= r < g0.len() implies canvas.grid()[r] == target[r] by {
            if r >= BAND_HEIGHT {
                assert(!glyph_hits_row(*g, th as int, r));
                assert(target[r] == g0[r]);
            }
        }
        assert(canvas.grid() =~= target);
    }
}

/// Renders the caption line into the band, centered: glyphs are blitted
/// left to right, each clipped to the canvas.
pub fn render_band(canvas: &mut Canvas, line: &CaptionLine, policy: TextColor)
    requires
        old(canvas).wf(),
        line.wf(),
    ensures
        final(canvas).wf(),
        final(canvas).width == old(canvas).width,
        final(canvas).height == old(canvas).height,
        final(canvas).grid() == rendered_band(
            old(canvas).grid(),
            *line,
            old(canvas).width as int,
            policy,
        ),
{
    let ghost prev0 = canvas.grid();
    let ghost gs = line.glyphs@;
    let ghost thi = line.total_height as int;
    let cw = canvas.width;
    let pad: i64 = compute_padding(cw, line.total_width);
    proof {
        lemma_line_height_bound(gs);
    }
    let th32: u32 = line.total_height;
    let mut x: i64 = pad;
    let mut j: usize = 0;
    while j < line.glyphs.len()
        invariant
            canvas.wf(),
            canvas.width == old(canvas).width,
            canvas.height == old(canvas).height,
            line.wf(),
            gs == line.glyphs@,
            thi == line.total_height as int,
            th32 == line.total_height,
            th32 <= MAX_GLYPH_DIM,
            cw == canvas.width,
            pad == padding_of(cw as int, line.total_width as int),
            -0x8000_0000 <= pad <= 0x8000,
            j <= gs.len(),
            gs.len() <= MAX_CAPTION_LEN,
            x == pad + line_advance(gs.take(j as int)),
            -0x1_0000_0000 <= x <= 0x2_0000_0000,
            prev0 == old(canvas).grid(),
            blit_from(prev0, gs, 0, pad as int, thi, policy) == blit_from(
                canvas.grid(),
                gs,
                j as int,
                x as int,
                thi,
                policy,
            ),
        decreases gs.len() - j,
    {
        let g = &line.glyphs[j];
        let ghost gcur = canvas.grid();
        blit_one(canvas, g, x, th32, policy);
        proof {
            assert(blit_from(gcur, gs, j as int, x as int, thi, policy) == blit_from(
                blit_glyph(gcur, gs[j as int], x as int, thi, policy),
                gs,
                j as int + 1,
                x as int + gs[j as int].advance(),
                thi,
                policy,
            ));
            assert(gs.take(j + 1).drop_last() =~= gs.take(j as int));
            assert(gs.take(j + 1).last() == gs[j as int]);
            assert(glyphs_wf(gs.take(j + 1)));
            lemma_line_advance_bound(gs.take(j + 1));
        }
        x = x + (g.width as i64) + (g.xmin as i64);
        j = j + 1;
    }
    proof {
        assert(gs.take(gs.len() as int) =~= gs);
    }
}

} // verus!
