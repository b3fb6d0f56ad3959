//! The producer side of the frame pipeline: compositing each decoded
//! frame onto the persistent canvas and stamping the snapshot that goes to
//! the encoder.

use vstd::prelude::*;
use crate::canvas::{white_grid, Canvas, BAND_HEIGHT, MAX_DIM};
use crate::caption::{render_band, rendered_band, CaptionLine};
use crate::color::Px;
use crate::compose::{active_palette, apply_frame, composite, has_palette, indices_ok, ComposeFault};
use crate::errors::CaptionError;
use crate::frame::Frame;
use crate::glyph::TextColor;

verus! {

/// The fixed output rate this design uses: 60 frames per notional second.
/// The one other known configuration, 100, is chosen by passing another
/// `fps` value explicitly.
pub const OUTPUT_FPS: u32 = 60;

/// A presentation timestamp, the exact rational `num / den` seconds.
#[derive(Clone, Copy, PartialEq, Eq, Structural, Debug)]
pub struct Timestamp {
    pub num: u64,
    pub den: u64,
}

/// Strict order on timestamps as rationals.
pub open spec fn ts_lt(a: Timestamp, b: Timestamp) -> bool {
    a.num * b.den < b.num * a.den
}

/// With one positive rate, the timestamp of a later frame index is
/// strictly greater.
pub proof fn lemma_timestamps_monotonic(a: Timestamp, b: Timestamp)
    requires
        a.den == b.den,
        a.den > 0,
        a.num < b.num,
    ensures
        ts_lt(a, b),
{
    assert(a.num * b.den < b.num * a.den) by (nonlinear_arith)
        requires
            a.den == b.den,
            a.den > 0,
            a.num < b.num,
    ;
}

/// One composited frame handed to the encoder: an owned snapshot of the
/// whole canvas with its index and timestamp.
pub struct OutputFrame {
    pub index: u64,
    pub rows: Vec<Vec<Px>>,
    pub timestamp: Timestamp,
}

impl OutputFrame {
    /// The snapshot as a mathematical grid.
    pub open spec fn grid(self) -> Seq<Seq<Px>> {
        self.rows@.map_values(|v: Vec<Px>| v@)
    }
}

/// The canvas grid right before any frame is composited: all white, with
/// the caption line rendered into the band.
pub open spec fn start_grid(
    width: int,
    source_height: int,
    line: CaptionLine,
    policy: TextColor,
) -> Seq<Seq<Px>> {
    rendered_band(white_grid(width, source_height + BAND_HEIGHT), line, width, policy)
}

/// Whether every frame before position `n` has a palette whose drawn
/// indices all resolve.
pub open spec fn frames_ok_before(frames: Seq<Frame>, global: Option<Vec<u8>>, n: int) -> bool {
    forall|k: int|
        0 <= k < n ==> has_palette(#[trigger] frames[k], global) && indices_ok(
            frames[k],
            active_palette(frames[k], global),
        )
}

/// The canvas grid after the first `k` frames are composited in order.
pub open spec fn grids(
    g0: Seq<Seq<Px>>,
    frames: Seq<Frame>,
    global: Option<Vec<u8>>,
    k: int,
) -> Seq<Seq<Px>>
    decreases k,
{
    if k <= 0 {
        g0
    } else {
        composite(
            grids(g0, frames, global, k - 1),
            frames[k - 1],
            active_palette(frames[k - 1], global),
        )
    }
}

/// The producer's state: the canvas, the shared global palette captured
/// before decoding began, the output rate, and the next frame index.
pub struct Pipeline {
    pub canvas: Canvas,
    pub global_palette: Option<Vec<u8>>,
    pub fps: u32,
    pub next_index: u64,
}

impl Pipeline {
    pub open spec fn wf(self) -> bool {
        &&& self.canvas.wf()
        &&& self.fps > 0
    }

    /// Sets the pipeline up: a white canvas one band taller than the
    /// source, with the caption rendered into the band once, before any
    /// frame is composited.
    pub fn new(
        width: usize,
        source_height: usize,
        line: &CaptionLine,
        policy: TextColor,
        fps: u32,
        global_palette: Option<Vec<u8>>,
    ) -> (p: Pipeline)
        requires
            width <= MAX_DIM,
            source_height <= MAX_DIM,
            line.wf(),
            fps > 0,
        ensures
            p.wf(),
            p.canvas.width == width,
            p.canvas.height == source_height + BAND_HEIGHT,
            p.next_index == 0,
            p.fps == fps,
            p.global_palette == global_palette,
            p.canvas.grid() == start_grid(width as int, source_height as int, *line, policy),
    {
        let mut canvas = Canvas::new(width, source_height);
        render_band(&mut canvas, line, policy);
        Pipeline { canvas, global_palette, fps, next_index: 0 }
    }

    /// Composites one decoded frame and returns the owned snapshot that
    /// goes to the collector, stamped `next_index / fps`. On failure the
    /// whole state is left unchanged and the error names the frame.
    pub fn push_frame(&mut self, frame: &Frame) -> (r: Result<OutputFrame, CaptionError>)
        requires
            old(self).wf(),
            frame.wf(),
            frame.fits(old(self).canvas),
            old(self).next_index < u64::MAX,
        ensures
            final(self).wf(),
            final(self).canvas.width == old(self).canvas.width,
            final(self).canvas.height == old(self).canvas.height,
            final(self).fps == old(self).fps,
            final(self).global_palette == old(self).global_palette,
            r is Ok <==> has_palette(*frame, old(self).global_palette) && indices_ok(
                *frame,
                active_palette(*frame, old(self).global_palette),
            ),
            r is Ok ==> final(self).canvas.grid() == composite(
                old(self).canvas.grid(),
                *frame,
                active_palette(*frame, old(self).global_palette),
            ),
            r is Ok ==> forall|b: int|
                0 <= b < BAND_HEIGHT && b < old(self).canvas.grid().len()
                    ==> #[trigger] final(self).canvas.grid()[b] == old(self).canvas.grid()[b],
            r is Ok ==> final(self).next_index == old(self).next_index + 1,
            r is Ok ==> r.unwrap().index == old(self).next_index,
            r is Ok ==> r.unwrap().timestamp == (Timestamp {
                num: old(self).next_index,
                den: old(self).fps as u64,
            }),
            r is Ok ==> r.unwrap().grid() == final(self).canvas.grid(),
            r is Ok ==> r.unwrap().rows@.len() == old(self).canvas.height,
            r is Err ==> *final(self) == *old(self),
            r == Err::<OutputFrame, CaptionError>(
                CaptionError::MissingPalette(old(self).next_index),
            ) <==> !has_palette(*frame, old(self).global_palette),
            r is Err && has_palette(*frame, old(self).global_palette) ==> r == Err::<
                OutputFrame,
                CaptionError,
            >(CaptionError::Decode(old(self).next_index)),
    {
        match apply_frame(&mut self.canvas, frame, &self.global_palette) {
            Ok(()) => {
                proof {
                    crate::compose::lemma_band_rows_unchanged(
                        old(self).canvas.grid(),
                        *frame,
                        active_palette(*frame, old(self).global_palette),
                    );
                }
                let rows = self.canvas.snapshot_rows();
                let index = self.next_index;
                let timestamp = Timestamp { num: index, den: self.fps as u64 };
                self.next_index = index + 1;
                Ok(OutputFrame { index, rows, timestamp })
            },
            Err(ComposeFault::MissingPalette) => Err(
                CaptionError::MissingPalette(self.next_index),
            ),
            Err(ComposeFault::IndexOutOfPalette) => Err(CaptionError::Decode(self.next_index)),
        }
    }

    /// Runs the whole decode-side pipeline over an ordered frame
    /// sequence: the canvas accumulates every frame in order and one
    /// snapshot per source frame comes out, indexed from zero and stamped
    /// `index / fps`, so timestamps strictly increase. Fails with the
    /// first frame's fault, reporting its index, and produces nothing for
    /// it.
    pub fn run(
        width: usize,
        source_height: usize,
        line: &CaptionLine,
        policy: TextColor,
        fps: u32,
        global_palette: Option<Vec<u8>>,
        frames: &Vec<Frame>,
    ) -> (r: Result<Vec<OutputFrame>, CaptionError>)
        requires
            width <= MAX_DIM,
            source_height <= MAX_DIM,
            line.wf(),
            fps > 0,
            forall|i: int| 0 <= i < frames@.len() ==> (#[trigger] frames@[i]).wf(),
            forall|i: int|
                0 <= i < frames@.len() ==> (#[trigger] frames@[i]).top + frames@[i].height
                    <= source_height,
            forall|i: int|
                0 <= i < frames@.len() ==> (#[trigger] frames@[i]).left + frames@[i].width
                    <= width,
        ensures
            r is Ok <==> (forall|i: int|
                0 <= i < frames@.len() ==> has_palette(#[trigger] frames@[i], global_palette)
                    && indices_ok(frames@[i], active_palette(frames@[i], global_palette))),
            r is Ok ==> r.unwrap()@.len() == frames@.len(),
            r is Ok ==> (forall|i: int|
                0 <= i < frames@.len() ==> {
                    let out = #[trigger] r.unwrap()@[i];
                    &&& out.index == i
                    &&& out.timestamp == (Timestamp { num: i as u64, den: fps as u64 })
                    &&& out.rows@.len() == source_height + BAND_HEIGHT
                    &&& out.grid() == grids(
                        start_grid(width as int, source_height as int, *line, policy),
                        frames@,
                        global_palette,
                        i + 1,
                    )
                }),
            r is Ok ==> (forall|i: int, j: int|
                0 <= i < j < frames@.len() ==> ts_lt(
                    #[trigger] r.unwrap()@[i].timestamp,
                    #[trigger] r.unwrap()@[j].timestamp,
                )),
            match r {
                Ok(_) => true,
                Err(CaptionError::MissingPalette(i)) => i < frames@.len() && !has_palette(
                    frames@[i as int],
                    global_palette,
                ) && frames_ok_before(frames@, global_palette, i as int),
                Err(CaptionError::Decode(i)) => i < frames@.len() && has_palette(
                    frames@[i as int],
                    global_palette,
                ) && !indices_ok(
                    frames@[i as int],
                    active_palette(frames@[i as int], global_palette),
                ) && frames_ok_before(frames@, global_palette, i as int),
                Err(_) => false,
            },
    {
        let ghost sg = start_grid(width as int, source_height as int, *line, policy);
        let mut p = Pipeline::new(width, source_height, line, policy, fps, global_palette);
        let mut outs: Vec<OutputFrame> = Vec::new();
        let mut i: usize = 0;
        while i < frames.len()
            invariant
                p.wf(),
                p.canvas.width == width,
                p.canvas.height == source_height + BAND_HEIGHT,
                p.fps == fps,
                p.global_palette == global_palette,
                p.next_index == i,
                i <= frames@.len(),
                width <= MAX_DIM,
                source_height <= MAX_DIM,
                fps > 0,
                forall|k: int| 0 <= k < frames@.len() ==> (#[trigger] frames@[k]).wf(),
                forall|k: int|
                    0 <= k < frames@.len() ==> (#[trigger] frames@[k]).top + frames@[k].height
                        <= source_height,
                forall|k: int|
                    0 <= k < frames@.len() ==> (#[trigger] frames@[k]).left + frames@[k].width
                        <= width,
                sg == start_grid(width as int, source_height as int, *line, policy),
                p.canvas.grid() == grids(sg, frames@, global_palette, i as int),
                outs@.len() == i,
                forall|k: int|
                    0 <= k < i ==> has_palette(#[trigger] frames@[k], global_palette)
                        && indices_ok(frames@[k], active_palette(frames@[k], global_palette)),
                forall|k: int|
                    0 <= k < i ==> {
                        let out = #[trigger] outs@[k];
                        &&& out.index == k
                        &&& out.timestamp == (Timestamp { num: k as u64, den: fps as u64 })
                        &&& out.rows@.len() == source_height + BAND_HEIGHT
                        &&& out.grid() == grids(sg, frames@, global_palette, k + 1)
                    },
            decreases frames@.len() - i,
        {
            let frame = &frames[i];
            match p.push_frame(frame) {
                Ok(out) => {
                    outs.push(out);
                },
                Err(e) => {
                    proof {
                        assert(!(has_palette(frames@[i as int], global_palette) && indices_ok(
                            frames@[i as int],
                            active_palette(frames@[i as int], global_palette),
                        )));
                    }
                    return Err(e);
                },
            }
            i = i + 1;
        }
        proof {
            assert forall|a: int, b: int| 0 <= a < b < frames@.len() implies ts_lt(
                #[trigger] outs@[a].timestamp,
                #[trigger] outs@[b].timestamp,
            ) by {
                lemma_timestamps_monotonic(outs@[a].timestamp, outs@[b].timestamp);
            }
        }
        Ok(outs)
    }
}

} // verus!
