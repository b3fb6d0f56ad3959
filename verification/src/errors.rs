//! The failure taxonomy of a captioning run. Every failure is fatal to the
//! run; the frame-carrying variants name the source frame being processed.

use vstd::prelude::*;

verus! {

#[derive(Clone, Copy, PartialEq, Eq, Structural, Debug)]
pub enum CaptionError {
    /// The font could not be parsed, or a rasterized glyph exceeds the
    /// metric bounds the layout accepts.
    FontLoad,
    /// The source stream is malformed at the given frame.
    Decode(u64),
    /// The given frame has neither a local palette nor is a global one
    /// available.
    MissingPalette(u64),
    /// The output encoder rejected a frame or the stream.
    Encode,
    /// The producer ended without reaching a declared end state.
    ThreadFault,
}

} // verus!
