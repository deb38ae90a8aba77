//! Rasterized text as plain data.
//!
//! Glyph coverage is computed by a font engine outside this crate and
//! handed in as pixel lists; every decision taken on those pixels —
//! anti-alias thresholds, color choice, clipping, placement — is
//! verified code in this crate.

use vstd::prelude::*;

verus! {

/// One covered pixel of a laid-out text: its column and row relative
/// to the layout origin, and its coverage quantized to 0..=255.
#[derive(Clone, Copy, Debug, PartialEq, Eq, Structural)]
pub struct GlyphPixel {
    pub x: i32,
    pub y: i32,
    pub coverage: u8,
}

/// Coverage below this is not drawn at all.
pub const COVERAGE_MIN: u8 = 3;

/// Coverage below this (but at least `COVERAGE_MIN`) draws in the
/// medium shade; at or above it, in full color.
pub const COVERAGE_FULL: u8 = 128;

/// Pre-rasterized glyphs and font metrics for every fixed text the
/// renderer draws: coordinate labels, annotation badge labels, and the
/// vertical metrics used to place names and clocks.
pub struct FontGlyphs {
    /// File labels `a` through `h`, laid out at the coordinate scale.
    pub file_labels: [Vec<GlyphPixel>; 8],
    /// Rank labels `1` through `8`, laid out at the coordinate scale.
    pub rank_labels: [Vec<GlyphPixel>; 8],
    /// Badge labels in glyph-index order, laid out at the badge scale.
    pub badge_labels: [Vec<GlyphPixel>; 6],
    /// Ascent at the coordinate-label scale.
    pub coord_ascent: i32,
    /// Descent at the coordinate-label scale (non-positive).
    pub coord_descent: i32,
    /// Ascent at the clock scale.
    pub clock_ascent: i32,
    /// Ascent at the player-name scale.
    pub bar_ascent: i32,
}

/// Copy a pixel list.
pub fn copy_pixels(src: &Vec<GlyphPixel>) -> (r: Vec<GlyphPixel>)
    ensures
        r@ == src@,
{
    let mut out: Vec<GlyphPixel> = Vec::new();
    let mut i: usize = 0;
    while i < src.len()
        invariant
            i <= src@.len(),
            out@ == src@.take(i as int),
        decreases src@.len() - i,
    {
        out.push(src[i]);
        i = i + 1;
        proof {
            assert(src@.take(i as int) =~= src@.take(i - 1 as int).push(src@[i - 1 as int]));
        }
    }
    proof {
        assert(src@.take(src@.len() as int) =~= src@);
    }
    out
}

/// A player name together with its rasterization at the bar scale,
/// laid out at origin (0, 0). The pixels are split where the first
/// glyph without an outline (in practice, the space after a title
/// prefix) ends: `head` is drawn in the title color, `tail` always in
/// the default text color.
#[derive(Debug)]
pub struct PlayerName {
    pub name: String,
    pub head: Vec<GlyphPixel>,
    pub tail: Vec<GlyphPixel>,
}

impl PlayerName {
    /// An empty name covering no pixels.
    pub fn empty() -> (r: PlayerName)
        ensures
            r.name@.len() == 0,
            r.head@.len() == 0,
            r.tail@.len() == 0,
    {
        PlayerName { name: String::new(), head: Vec::new(), tail: Vec::new() }
    }
}

/// A clock value together with the rasterization of its formatted
/// text at the clock scale, laid out at origin (0, 0).
#[derive(Debug)]
pub struct ClockText {
    pub centis: u32,
    pub raster: Vec<GlyphPixel>,
}

impl Clone for ClockText {
    fn clone(&self) -> (r: Self)
        ensures
            r.centis == self.centis,
            r.raster@ == self.raster@,
    {
        ClockText { centis: self.centis, raster: copy_pixels(&self.raster) }
    }
}

impl Clone for PlayerName {
    fn clone(&self) -> (r: Self)
        ensures
            r.name@ == self.name@,
            r.head@ == self.head@,
            r.tail@ == self.tail@,
    {
        PlayerName {
            name: self.name.clone(),
            head: copy_pixels(&self.head),
            tail: copy_pixels(&self.tail),
        }
    }
}

} // verus!
