//! Compositing one palette-indexed frame onto the persistent canvas.

use vstd::prelude::*;
use crate::canvas::{Canvas, BAND_HEIGHT};
use crate::color::{lookup_palette, palette_color, palette_has, Px};
use crate::frame::Frame;

verus! {

/// Why compositing one frame failed.
#[derive(Clone, Copy, PartialEq, Eq, Structural, Debug)]
pub enum ComposeFault {
    /// The frame has no local palette and no global palette exists.
    MissingPalette,
    /// A drawn pixel's index has no RGB triple inside the active palette.
    IndexOutOfPalette,
}

/// The palette a frame resolves its colors through: its own if present,
/// else the shared global palette.
pub open spec fn active_palette(frame: Frame, global: Option<Vec<u8>>) -> Seq<u8> {
    match frame.palette {
        Some(p) => p@,
        None => match global {
            Some(g) => g@,
            None => Seq::empty(),
        },
    }
}

/// Whether some palette is available for the frame.
pub open spec fn has_palette(frame: Frame, global: Option<Vec<u8>>) -> bool {
    frame.palette is Some || global is Some
}

/// Whether canvas cell (r, c) lies inside the frame's target rectangle.
pub open spec fn covers(frame: Frame, r: int, c: int) -> bool {
    &&& BAND_HEIGHT + frame.top <= r < BAND_HEIGHT + frame.top + frame.height
    &&& frame.left <= c < frame.left + frame.width
}

/// The palette index of the frame pixel feeding canvas cell (r, c).
pub open spec fn src_of(frame: Frame, r: int, c: int) -> u8 {
    frame.index_at(r - BAND_HEIGHT - frame.top, c - frame.left)
}

/// Whether compositing the frame writes canvas cell (r, c).
pub open spec fn draws(frame: Frame, r: int, c: int) -> bool {
    covers(frame, r, c) && frame.uses(src_of(frame, r, c))
}

/// The grid after one frame: a drawn cell takes the palette color of its
/// index; every other cell keeps its prior value.
pub open spec fn composite(prev: Seq<Seq<Px>>, frame: Frame, pal: Seq<u8>) -> Seq<Seq<Px>> {
    Seq::new(
        prev.len(),
        |r: int|
            Seq::new(
                prev[r].len(),
                |c: int|
                    if draws(frame, r, c) {
                        palette_color(pal, src_of(frame, r, c) as int)
                    } else {
                        prev[r][c]
                    },
            ),
    )
}

/// Every drawn index has a full RGB triple inside the palette.
pub open spec fn indices_ok(frame: Frame, pal: Seq<u8>) -> bool {
    forall|k: int|
        0 <= k < frame.pixels@.len() && frame.uses(#[trigger] frame.pixels@[k])
            ==> palette_has(pal, frame.pixels@[k] as int)
}

/// Band immutability: compositing a frame never changes a band row.
pub proof fn lemma_band_rows_unchanged(prev: Seq<Seq<Px>>, frame: Frame, pal: Seq<u8>)
    ensures
        forall|r: int|
            0 <= r < prev.len() && r < BAND_HEIGHT ==> #[trigger] composite(
                prev,
                frame,
                pal,
            )[r] == prev[r],
{
    assert forall|r: int| 0 <= r < prev.len() && r < BAND_HEIGHT implies #[trigger] composite(
        prev,
        frame,
        pal,
    )[r] == prev[r] by {
        assert forall|c: int| 0 <= c < prev[r].len() implies composite(prev, frame, pal)[r][c]
            == prev[r][c] by {
            assert(!covers(frame, r, c));
        }
        assert(composite(prev, frame, pal)[r] =~= prev[r]);
    }
}

/// Transparency pass-through: a frame pixel whose index equals the frame's
/// transparent index leaves its canvas cell exactly as it was.
pub proof fn lemma_transparent_passthrough(
    prev: Seq<Seq<Px>>,
    frame: Frame,
    pal: Seq<u8>,
    fy: int,
    fx: int,
)
    requires
        0 <= fy < frame.height,
        0 <= fx < frame.width,
        frame.transparent == Some(frame.index_at(fy, fx)),
        BAND_HEIGHT + frame.top + fy < prev.len(),
        frame.left + fx < prev[BAND_HEIGHT + frame.top + fy].len(),
    ensures
        composite(prev, frame, pal)[BAND_HEIGHT + frame.top + fy][frame.left + fx] == prev[
            BAND_HEIGHT + frame.top + fy
        ][frame.left + fx],
{
    let r = BAND_HEIGHT + frame.top + fy;
    let c = frame.left + fx;
    assert(src_of(frame, r, c) == frame.index_at(fy, fx));
    assert(!frame.uses(src_of(frame, r, c)));
}

/// Composites one frame into the canvas in place.
///
/// On success every cell of the frame rectangle whose index is drawn takes
/// its palette color and every other cell of the whole canvas is untouched.
/// Fails, leaving the canvas unchanged, when no palette is available or a
/// drawn index lies outside the active palette.
pub fn apply_frame(canvas: &mut Canvas, frame: &Frame, global: &Option<Vec<u8>>) -> (res: Result<
    (),
    ComposeFault,
>)
    requires
        old(canvas).wf(),
        frame.wf(),
        frame.fits(*old(canvas)),
    ensures
        final(canvas).wf(),
        final(canvas).width == old(canvas).width,
        final(canvas).height == old(canvas).height,
        res is Ok <==> has_palette(*frame, *global) && indices_ok(
            *frame,
            active_palette(*frame, *global),
        ),
        res is Ok ==> final(canvas).grid() == composite(
            old(canvas).grid(),
            *frame,
            active_palette(*frame, *global),
        ),
        res == Err::<(), ComposeFault>(ComposeFault::MissingPalette) <==> !has_palette(
            *frame,
            *global,
        ),
        res is Err ==> *final(canvas) == *old(canvas),
{
    let pal: &Vec<u8> = match &frame.palette {
        Some(p) => p,
        None => match global {
            Some(g) => g,
            None => {
                return Err(ComposeFault::MissingPalette);
            },
        },
    };
    proof {
        assert(pal@ == active_palette(*frame, *global));
        assert(has_palette(*frame, *global));
    }
    // Validation pass: reject the frame before touching the canvas if any
    // drawn index lies outside the palette.
    let n = frame.pixels.len();
    let mut k: usize = 0;
    while k < n
        invariant
            k <= n,
            n == frame.pixels@.len(),
            old(canvas).wf(),
            has_palette(*frame, *global),
            pal@ == active_palette(*frame, *global),
            *canvas == *old(canvas),
            forall|i: int|
                0 <= i < k && frame.uses(#[trigger] frame.pixels@[i]) ==> palette_has(
                    pal@,
                    frame.pixels@[i] as int,
                ),
        decreases n - k,
    {
        let idx = frame.pixels[k];
        let used = match frame.transparent {
            Some(t) => t != idx,
            None => true,
        };
        if used && (idx as usize) * 3 + 3 > pal.len() {
            proof {
                assert(frame.uses(frame.pixels@[k as int]));
                assert(!palette_has(pal@, frame.pixels@[k as int] as int));
                assert(!indices_ok(*frame, active_palette(*frame, *global)));
                assert(*canvas == *old(canvas));
            }
            return Err(ComposeFault::IndexOutOfPalette);
        }
        k = k + 1;
    }
    proof {
        assert(indices_ok(*frame, pal@));
    }
    // Write pass.
    let ghost prev = canvas.grid();
    let fw = frame.width as usize;
    let fh = frame.height as usize;
    let left = frame.left as usize;
    let rtop = BAND_HEIGHT + (frame.top as usize);
    let mut fy: usize = 0;
    while fy < fh
        invariant
            fy <= fh,
            canvas.wf(),
            canvas.width == old(canvas).width,
            canvas.height == old(canvas).height,
            frame.wf(),
            frame.fits(*canvas),
            fw == frame.width,
            fh == frame.height,
            left == frame.left,
            rtop == BAND_HEIGHT + frame.top,
            pal@ == active_palette(*frame, *global),
            indices_ok(*frame, pal@),
            prev == old(canvas).grid(),
            prev.len() == canvas.height,
            forall|r: int| 0 <= r < prev.len() ==> (#[trigger] prev[r]).len() == canvas.width,
            forall|r: int, c: int|
                0 <= r < prev.len() && 0 <= c < prev[r].len() ==> #[trigger] canvas.grid()[r][c]
                    == (if draws(*frame, r, c) && r < rtop + fy {
                    palette_color(pal@, src_of(*frame, r, c) as int)
                } else {
                    prev[r][c]
                }),
        decreases fh - fy,
    {
        let mut fx: usize = 0;
        while fx < fw
            invariant
                fy < fh,
                fx <= fw,
                canvas.wf(),
                canvas.width == old(canvas).width,
                canvas.height == old(canvas).height,
                frame.wf(),
                frame.fits(*canvas),
                fw == frame.width,
                fh == frame.height,
                left == frame.left,
                rtop == BAND_HEIGHT + frame.top,
                pal@ == active_palette(*frame, *global),
                indices_ok(*frame, pal@),
                prev == old(canvas).grid(),
                prev.len() == canvas.height,
                forall|r: int| 0 <= r < prev.len() ==> (#[trigger] prev[r]).len() == canvas.width,
                forall|r: int, c: int|
                    0 <= r < prev.len() && 0 <= c < prev[r].len() ==> #[trigger] canvas.grid()[r][c]
                        == (if draws(*frame, r, c) && (r < rtop + fy || (r == rtop + fy && c < left
                        + fx)) {
                        palette_color(pal@, src_of(*frame, r, c) as int)
                    } else {
                        prev[r][c]
                    }),
            decreases fw - fx,
        {
            let idx = frame.read_index(fy, fx);
            let used = match frame.transparent {
                Some(t) => t != idx,
                None => true,
            };
            let r = rtop + fy;
            let c = left + fx;
            let ghost g0 = canvas.grid();
            proof {
                assert(src_of(*frame, r as int, c as int) == frame.index_at(fy as int, fx as int));
                assert(used == frame.uses(idx));
            }
            if used {
                proof {
                    let k: int = fy as int * frame.width as int + fx as int;
                    assert(fy * frame.width + fx < frame.width * frame.height) by (nonlinear_arith)
                        requires
                            0 <= fy < frame.height,
                            0 <= fx < frame.width,
                    ;
                    assert(idx == frame.pixels@[k]);
                    assert(frame.uses(frame.pixels@[k]));
                    assert(palette_has(pal@, idx as int));
                }
                let px = lookup_palette(pal, idx);
                canvas.rows[r][c] = px;
                proof {
                    assert(canvas.grid()[r as int] =~= g0[r as int].update(c as int, px));
                }
            }
            proof {
                assert(draws(*frame, r as int, c as int) == frame.uses(idx));
                assert forall|rr: int, cc: int|
                    0 <= rr < prev.len() && 0 <= cc < prev[rr].len() implies #[trigger] canvas.grid()[rr][cc]
                        == (if draws(*frame, rr, cc) && (rr < rtop + fy || (rr == rtop + fy && cc
                        < left + fx + 1)) {
                        palette_color(pal@, src_of(*frame, rr, cc) as int)
                    } else {
                        prev[rr][cc]
                    }) by {
                    if used && rr == r && cc == c {
                        assert(canvas.grid()[rr] == g0[rr].update(cc, palette_color(
                            pal@,
                            idx as int,
                        )));
                    } else {
                        assert(canvas.grid()[rr][cc] == g0[rr][cc]);
                        assert(g0[rr][cc] == (if draws(*frame, rr, cc) && (rr < rtop + fy || (rr
                            == rtop + fy && cc < left + fx)) {
                            palette_color(pal@, src_of(*frame, rr, cc) as int)
                        } else {
                            prev[rr][cc]
                        }));
                    }
                }
            }
            fx = fx + 1;
        }
        fy = fy + 1;
    }
    proof {
        let target = composite(prev, *frame, pal@);
        assert forall|r: int| 0 <= r < prev.len() implies canvas.grid()[r] == target[r] by {
            assert forall|c: int| 0 <= c < prev[r].len() implies canvas.grid()[r][c] == target[r][c]
                by {
                if draws(*frame, r, c) {
                    assert(r < rtop + fh);
                }
            }
            assert(canvas.grid()[r] =~= target[r]);
        }
        assert(canvas.grid() =~= target);
    }
    Ok(())
}

} // verus!
