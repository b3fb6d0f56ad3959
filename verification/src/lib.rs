//! Captioning pipeline for palette-indexed animations: glyph rasterization
//! and band layout, palette-to-RGBA frame compositing on a persistent
//! canvas, and the producer-side stepping that stamps each composited
//! frame snapshot with its timestamp.

pub mod canvas;
pub mod caption;
pub mod color;
pub mod compose;
pub mod errors;
pub mod frame;
pub mod glyph;
pub mod pipeline;
