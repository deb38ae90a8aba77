//! Renders chess positions and move sequences as GIF images.
//!
//! The crate turns a sequence of board snapshots into minimal pixel-level
//! deltas, composites sprites and text into those deltas, and emits the
//! result as a spec-compliant, block-by-block GIF bitstream through a
//! forward-only producer of byte chunks.

pub mod api;
pub mod board;
pub mod assets;
pub mod frame;
pub mod gif;
pub mod pixel;
pub mod render;
pub mod svg_theme;
pub mod text;
pub mod theme;
