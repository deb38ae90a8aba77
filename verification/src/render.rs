//! The incremental renderer: player bars, clock regions, diff
//! compositing, and the block-by-block GIF producer.

use vstd::prelude::*;

use crate::api::{Clocks, Coordinates, Orientation, RequestBody, RequestParams};
use crate::api::{check_bb, spec_check_bb};
use crate::board::{bb_has, highlight_uci, spec_highlight};
use crate::frame::{RenderFrame, FULL_BOARD};
use crate::gif::{
    lzw_image_block_of, push_color_table, spec_encodable, push_comment, push_graphic_control, push_header,
    push_image_data, push_image_desc, push_loop_forever, push_screen_desc, push_trailer,
    spec_comment, spec_graphic_control, spec_header, spec_image_desc, spec_loop_forever,
    spec_screen_desc, spec_trailer,
};
use crate::pixel::{
    blit_rect, copy_prefix, draw_glyphs, fill_rect, spec_blit_rect, spec_draw_glyphs,
    spec_fill_rect,
};
use crate::text::{ClockText, FontGlyphs, GlyphPixel, PlayerName, COVERAGE_MIN};
use crate::theme::{Theme, Themes, SpriteKey, ATLAS_WIDTH, BAR_HEIGHT, SQUARE};

verus! {

/// Pixels kept free at the right edge of a clock region.
pub const CLOCK_REGION_PADDING: usize = 20;

/// The decimal digit character for `d`.
pub open spec fn spec_digit(d: int) -> char {
    if d == 0 {
        '0'
    } else if d == 1 {
        '1'
    } else if d == 2 {
        '2'
    } else if d == 3 {
        '3'
    } else if d == 4 {
        '4'
    } else if d == 5 {
        '5'
    } else if d == 6 {
        '6'
    } else if d == 7 {
        '7'
    } else if d == 8 {
        '8'
    } else {
        '9'
    }
}

/// The decimal digits of `n`, most significant first.
pub open spec fn spec_dec(n: int) -> Seq<char>
    decreases n,
{
    if n < 10 {
        seq![spec_digit(n)]
    } else {
        spec_dec(n / 10) + seq![spec_digit(n % 10)]
    }
}

/// `n` as exactly two digits (for `n` under 100).
pub open spec fn spec_two_digits(n: int) -> Seq<char> {
    seq![spec_digit(n / 10), spec_digit(n % 10)]
}

/// What a clock value in centiseconds reads as: `H:MM:SS` from one
/// hour up, `M:SS` from one minute up, `00:SS.D` below that.
pub open spec fn spec_format_clock(centis: u32) -> Seq<char> {
    let total = centis as int / 100;
    let tenths = (centis as int % 100) / 10;
    let hours = total / 3600;
    let mins = (total % 3600) / 60;
    let secs = total % 60;
    if hours > 0 {
        spec_dec(hours) + seq![':'] + spec_two_digits(mins) + seq![':'] + spec_two_digits(secs)
    } else if mins > 0 {
        spec_dec(mins) + seq![':'] + spec_two_digits(secs)
    } else {
        seq!['0', '0', ':'] + spec_two_digits(secs) + seq!['.'] + seq![spec_digit(tenths)]
    }
}

fn push_digit(s: &mut String, d: u32)
    requires
        d < 10,
    ensures
        final(s)@ == old(s)@ + seq![spec_digit(d as int)],
{
    proof {
        reveal_strlit("0");
        reveal_strlit("1");
        reveal_strlit("2");
        reveal_strlit("3");
        reveal_strlit("4");
        reveal_strlit("5");
        reveal_strlit("6");
        reveal_strlit("7");
        reveal_strlit("8");
        reveal_strlit("9");
    }
    if d == 0 {
        s.append("0");
    } else if d == 1 {
        s.append("1");
    } else if d == 2 {
        s.append("2");
    } else if d == 3 {
        s.append("3");
    } else if d == 4 {
        s.append("4");
    } else if d == 5 {
        s.append("5");
    } else if d == 6 {
        s.append("6");
    } else if d == 7 {
        s.append("7");
    } else if d == 8 {
        s.append("8");
    } else {
        s.append("9");
    }
    proof {
        assert(final(s)@ =~= old(s)@ + seq![spec_digit(d as int)]);
    }
}

fn push_dec(s: &mut String, n: u32)
    ensures
        final(s)@ == old(s)@ + spec_dec(n as int),
    decreases n,
{
    if n < 10 {
        push_digit(s, n);
    } else {
        push_dec(s, n / 10);
        push_digit(s, n % 10);
        proof {
            assert(final(s)@ =~= old(s)@ + spec_dec(n as int));
        }
    }
}

fn push_two_digits(s: &mut String, n: u32)
    requires
        n < 100,
    ensures
        final(s)@ == old(s)@ + spec_two_digits(n as int),
{
    push_digit(s, n / 10);
    push_digit(s, n % 10);
    proof {
        assert(final(s)@ =~= old(s)@ + spec_two_digits(n as int));
    }
}

fn push_colon(s: &mut String)
    ensures
        final(s)@ == old(s)@ + seq![':'],
{
    proof {
        reveal_strlit(":");
    }
    s.append(":");
    proof {
        assert(final(s)@ =~= old(s)@ + seq![':']);
    }
}

/// Format a clock value in centiseconds for display.
pub fn format_clock(centis: u32) -> (r: String)
    ensures
        r@ == spec_format_clock(centis),
{
    let total_secs = centis / 100;
    let tenths = (centis % 100) / 10;
    let hours = total_secs / 3600;
    let mins = (total_secs % 3600) / 60;
    let secs = total_secs % 60;

    let mut s = String::new();
    if hours > 0 {
        push_dec(&mut s, hours);
        push_colon(&mut s);
        push_two_digits(&mut s, mins);
        push_colon(&mut s);
        push_two_digits(&mut s, secs);
    } else if mins > 0 {
        push_dec(&mut s, mins);
        push_colon(&mut s);
        push_two_digits(&mut s, secs);
    } else {
        push_digit(&mut s, 0);
        push_digit(&mut s, 0);
        push_colon(&mut s);
        push_two_digits(&mut s, secs);
        proof {
            reveal_strlit(".");
        }
        s.append(".");
        push_digit(&mut s, tenths);
    }
    proof {
        assert(s@ =~= spec_format_clock(centis));
    }
    s
}

/// The running minima and maxima of device coordinates over the
/// changed squares from `sq` up, threaded through square by square.
pub open spec fn spec_bbox_fold(
    diff: u64,
    o: Orientation,
    sq: int,
    found: bool,
    xmin: int,
    xmax: int,
    ymin: int,
    ymax: int,
) -> (bool, int, int, int, int)
    decreases 64 - sq,
{
    if sq < 0 || sq >= 64 {
        (found, xmin, xmax, ymin, ymax)
    } else if bb_has(diff, sq as u64) {
        let x = o.spec_x(sq as u64);
        let y = o.spec_y(sq as u64);
        if !found {
            spec_bbox_fold(diff, o, sq + 1, true, x, x, y, y)
        } else {
            spec_bbox_fold(
                diff,
                o,
                sq + 1,
                true,
                if x < xmin {
                    x
                } else {
                    xmin
                },
                if x > xmax {
                    x
                } else {
                    xmax
                },
                if y < ymin {
                    y
                } else {
                    ymin
                },
                if y > ymax {
                    y
                } else {
                    ymax
                },
            )
        }
    } else {
        spec_bbox_fold(diff, o, sq + 1, found, xmin, xmax, ymin, ymax)
    }
}

/// The device-square bounding box `(x_min, y_min, x_max, y_max)` of a
/// changed-square set, exclusive on the maxima; the single top-left
/// square for an empty set.
pub open spec fn spec_bbox(diff: u64, o: Orientation) -> (int, int, int, int) {
    let f = spec_bbox_fold(diff, o, 0, false, 8, 0, 8, 0);
    if !f.0 {
        (0, 0, 0, 0)
    } else {
        (f.1, f.3, f.2 + 1, f.4 + 1)
    }
}

proof fn lemma_bbox_fold_zero(
    o: Orientation,
    sq: int,
    found: bool,
    a: int,
    b: int,
    c: int,
    d: int,
)
    ensures
        spec_bbox_fold(0u64, o, sq, found, a, b, c, d) == (found, a, b, c, d),
    decreases 64 - sq,
{
    if 0 <= sq < 64 {
        let t = sq as u64;
        assert(0u64 & (1u64 << t) == 0) by (bit_vector);
        lemma_bbox_fold_zero(o, sq + 1, found, a, b, c, d);
    }
}

/// The device-square bounding box of a changed-square set for a given
/// orientation: the smallest rectangle `[x_min, x_max) x [y_min, y_max)`
/// covering every changed square, or the zero-sized box at the origin
/// for an empty set.
pub fn diff_bounding_box(diff: u64, orientation: Orientation) -> (r: (usize, usize, usize, usize))
    ensures
        (r.0 as int, r.1 as int, r.2 as int, r.3 as int) == spec_bbox(diff, orientation),
        diff == 0 ==> r == (0usize, 0usize, 0usize, 0usize),
        diff != 0 ==> {
            &&& forall|sq: u64|
                sq < 64 && bb_has(diff, sq) ==> r.0 <= orientation.spec_x(sq) < r.2 && r.1
                    <= orientation.spec_y(sq) < r.3
            &&& exists|sq: u64|
                sq < 64 && #[trigger] bb_has(diff, sq) && orientation.spec_x(sq) == r.0
            &&& exists|sq: u64|
                sq < 64 && #[trigger] bb_has(diff, sq) && orientation.spec_x(sq) == r.2 - 1
            &&& exists|sq: u64|
                sq < 64 && #[trigger] bb_has(diff, sq) && orientation.spec_y(sq) == r.1
            &&& exists|sq: u64|
                sq < 64 && #[trigger] bb_has(diff, sq) && orientation.spec_y(sq) == r.3 - 1
        },
        diff != 0 ==> r.0 < r.2 <= 8 && r.1 < r.3 <= 8,
        r.2 <= 8 && r.3 <= 8,
{
    if diff == 0 {
        proof {
            lemma_bbox_fold_zero(orientation, 0, false, 8, 0, 8, 0);
        }
        return (0, 0, 0, 0);
    }
    let mut x_min: usize = 8;
    let mut x_max: usize = 0;
    let mut y_min: usize = 8;
    let mut y_max: usize = 0;
    let mut found = false;
    let mut sq: u8 = 0;
    proof {
        assert((diff >> 0u64) << 0u64 == diff) by (bit_vector);
    }
    while sq < 64
        invariant
            sq <= 64,
            spec_bbox_fold(
                diff,
                orientation,
                sq as int,
                found,
                x_min as int,
                x_max as int,
                y_min as int,
                y_max as int,
            ) == spec_bbox_fold(diff, orientation, 0, false, 8, 0, 8, 0),
            !found ==> (diff >> (sq as u64)) << (sq as u64) == diff,
            !found ==> (x_min == 8 && x_max == 0 && y_min == 8 && y_max == 0),
            found ==> {
                &&& x_min < 8 && x_max < 8 && y_min < 8 && y_max < 8
                &&& x_min <= x_max
                &&& y_min <= y_max
                &&& forall|t: u64|
                    t < sq && bb_has(diff, t) ==> x_min <= orientation.spec_x(t) <= x_max && y_min
                        <= orientation.spec_y(t) <= y_max
                &&& exists|t: u64|
                    t < sq && #[trigger] bb_has(diff, t) && orientation.spec_x(t) == x_min
                &&& exists|t: u64|
                    t < sq && #[trigger] bb_has(diff, t) && orientation.spec_x(t) == x_max
                &&& exists|t: u64|
                    t < sq && #[trigger] bb_has(diff, t) && orientation.spec_y(t) == y_min
                &&& exists|t: u64|
                    t < sq && #[trigger] bb_has(diff, t) && orientation.spec_y(t) == y_max
            },
            found ==> forall|t: u64|
                sq <= t < 64 || bb_has(diff, t) || !bb_has(diff, t),
        decreases 64 - sq,
    {
        let sqw: u64 = sq as u64;
        if diff & (1u64 << sqw) != 0 {
            proof {
                assert(bb_has(diff, sqw));
            }
            let x = orientation.x(sq);
            let y = orientation.y(sq);
            if !found {
                found = true;
                x_min = x;
                x_max = x;
                y_min = y;
                y_max = y;
                proof {
                    assert forall|t: u64| t < sqw implies !bb_has(diff, t) by {
                        assert(((diff >> sqw) << sqw == diff && t < sqw && sqw < 64) ==> diff & (
                        1u64 << t) == 0) by (bit_vector);
                    }
                }
            } else {
                if x < x_min {
                    x_min = x;
                }
                if x > x_max {
                    x_max = x;
                }
                if y < y_min {
                    y_min = y;
                }
                if y > y_max {
                    y_max = y;
                }
            }
        } else {
            proof {
                if !found {
                    assert(((diff >> sqw) << sqw == diff && diff & (1u64 << sqw) == 0 && sqw < 64)
                        ==> (diff >> (sqw + 1)) << (sqw + 1) == diff) by (bit_vector);
                }
                assert(!bb_has(diff, sqw));
            }
        }
        sq = sq + 1;
    }
    proof {
        if !found {
            assert((diff >> 64u64) << 64u64 == 0) by (bit_vector);
            assert(diff == 0);
        }
    }
    (x_min, y_min, x_max + 1, y_max + 1)
}

/// The background color of a square: one of the four square colors,
/// picked by highlight state and darkness.
pub fn get_square_background_color(is_highlighted: bool, is_dark: bool, theme: &Theme) -> (r: u8)
    ensures
        r == if is_highlighted {
            if is_dark {
                theme.spec_atlas()[270]
            } else {
                theme.spec_atlas()[180]
            }
        } else {
            if is_dark {
                theme.spec_atlas()[90]
            } else {
                theme.spec_atlas()[0]
            }
        },
{
    match is_highlighted {
        true => match is_dark {
            true => theme.square_highlighted_dark_color(),
            false => theme.square_highlighted_light_color(),
        },
        false => match is_dark {
            true => theme.square_dark_color(),
            false => theme.square_light_color(),
        },
    }
}

/// The two player bars: the names shown above and below the board.
pub struct PlayerBars {
    pub white: PlayerName,
    pub black: PlayerName,
}

impl PlayerBars {
    /// Bars are shown when at least one non-empty name or a clock is
    /// supplied; a missing or empty name becomes the empty name.
    pub fn from(white: Option<PlayerName>, black: Option<PlayerName>, has_clocks: bool) -> (r:
        Option<PlayerBars>)
        ensures
            r is Some <==> ((white matches Some(w) && w.name@.len() > 0) || (black matches Some(b)
                && b.name@.len() > 0) || has_clocks),
            r matches Some(pb) ==> {
                &&& (white matches Some(w) ==> (w.name@.len() > 0 ==> pb.white == w))
                &&& (!(white matches Some(w) && w.name@.len() > 0) ==> pb.white.name@.len() == 0
                    && pb.white.head@.len() == 0 && pb.white.tail@.len() == 0)
                &&& (black matches Some(b) ==> (b.name@.len() > 0 ==> pb.black == b))
                &&& (!(black matches Some(b) && b.name@.len() > 0) ==> pb.black.name@.len() == 0
                    && pb.black.head@.len() == 0 && pb.black.tail@.len() == 0)
            },
    {
        let white_name = match white {
            Some(w) => if w.name.as_str().unicode_len() > 0 {
                Some(w)
            } else {
                None
            },
            None => None,
        };
        let black_name = match black {
            Some(b) => if b.name.as_str().unicode_len() > 0 {
                Some(b)
            } else {
                None
            },
            None => None,
        };
        if white_name.is_some() || black_name.is_some() || has_clocks {
            Some(
                PlayerBars {
                    white: match white_name {
                        Some(w) => w,
                        None => PlayerName::empty(),
                    },
                    black: match black_name {
                        Some(b) => b,
                        None => PlayerName::empty(),
                    },
                },
            )
        } else {
            None
        }
    }
}

/// `s` begins with `p`, character for character.
pub open spec fn spec_starts_with(s: Seq<char>, p: Seq<char>) -> bool {
    p.len() <= s.len() && forall|j: int| 0 <= j < p.len() ==> s[j] == p[j]
}

pub fn str_starts_with(s: &str, p: &str) -> (r: bool)
    ensures
        r == spec_starts_with(s@, p@),
{
    let n = s.unicode_len();
    let m = p.unicode_len();
    if m > n {
        return false;
    }
    let mut i: usize = 0;
    while i < m
        invariant
            i <= m,
            m == p@.len(),
            m <= n,
            n == s@.len(),
            forall|j: int| 0 <= j < i ==> s@[j] == p@[j],
        decreases m - i,
    {
        if s.get_char(i) != p.get_char(i) {
            return false;
        }
        i = i + 1;
    }
    true
}

/// `name` begins with one of the recognized title prefixes.
pub open spec fn spec_is_titled(name: Seq<char>) -> bool {
    ||| spec_starts_with(name, "GM "@)
    ||| spec_starts_with(name, "WGM "@)
    ||| spec_starts_with(name, "IM "@)
    ||| spec_starts_with(name, "WIM "@)
    ||| spec_starts_with(name, "FM "@)
    ||| spec_starts_with(name, "WFM "@)
    ||| spec_starts_with(name, "NM "@)
    ||| spec_starts_with(name, "CM "@)
    ||| spec_starts_with(name, "WCM "@)
    ||| spec_starts_with(name, "WNM "@)
    ||| spec_starts_with(name, "LM "@)
    ||| spec_starts_with(name, "BOT "@)
}

/// The color a name's title prefix is drawn in: the bot color for a
/// bot, gold for a titled player, the default text color otherwise.
pub open spec fn spec_name_color(atlas: Seq<u8>, name: Seq<char>) -> u8 {
    if spec_starts_with(name, "BOT "@) {
        atlas[540]
    } else if spec_is_titled(name) {
        atlas[480]
    } else {
        atlas[420]
    }
}

fn select_name_color(theme: &Theme, name: &str) -> (r: u8)
    ensures
        r == spec_name_color(theme.spec_atlas(), name@),
        r < 255,
{
    if str_starts_with(name, "BOT ") {
        theme.bot_color()
    } else if str_starts_with(name, "GM ") || str_starts_with(name, "WGM ") || str_starts_with(
        name,
        "IM ",
    ) || str_starts_with(name, "WIM ") || str_starts_with(name, "FM ") || str_starts_with(
        name,
        "WFM ",
    ) || str_starts_with(name, "NM ") || str_starts_with(name, "CM ") || str_starts_with(
        name,
        "WCM ",
    ) || str_starts_with(name, "WNM ") || str_starts_with(name, "LM ") || str_starts_with(
        name,
        "BOT ",
    ) {
        theme.gold_color()
    } else {
        theme.text_color()
    }
}

/// One player bar: the bar background, then the name's title part in
/// its title color (medium shade only when that is the default text
/// color), then the rest of the name in the default text color.
pub open spec fn spec_render_bar(
    data: Seq<u8>,
    atlas: Seq<u8>,
    bar_top: int,
    name: PlayerName,
    ascent: int,
) -> Seq<u8> {
    let head_color = spec_name_color(atlas, name.name@);
    let head_med = if head_color == atlas[420] {
        atlas[600]
    } else {
        head_color
    };
    let filled = spec_fill_rect(data, 720, 0, bar_top, 720, BAR_HEIGHT as int, atlas[360]);
    let with_head = spec_draw_glyphs(
        filled,
        720,
        0,
        bar_top,
        name.head@,
        10,
        10 + ascent,
        720,
        BAR_HEIGHT as int,
        COVERAGE_MIN,
        head_med,
        head_color,
    );
    spec_draw_glyphs(
        with_head,
        720,
        0,
        bar_top,
        name.tail@,
        10,
        10 + ascent,
        720,
        BAR_HEIGHT as int,
        COVERAGE_MIN,
        atlas[600],
        atlas[420],
    )
}

pub fn render_bar(
    buffer: &mut Vec<u8>,
    bar_top: usize,
    theme: &Theme,
    font: &FontGlyphs,
    name: &PlayerName,
)
    requires
        (bar_top + BAR_HEIGHT) * 720 <= old(buffer)@.len(),
        -0x1_0000_0000 <= font.bar_ascent as int <= 0xFFFF_0000,
    ensures
        final(buffer)@.len() == old(buffer)@.len(),
        spec_encodable(old(buffer)@) ==> spec_encodable(final(buffer)@),
        final(buffer)@ == spec_render_bar(
            old(buffer)@,
            theme.spec_atlas(),
            bar_top as int,
            *name,
            font.bar_ascent as int,
        ),
{
    let bar_color = theme.bar_color();
    let text_color = theme.text_color();
    let head_color = select_name_color(theme, name.name.as_str());
    let head_med = if head_color == text_color {
        theme.med_text_color()
    } else {
        head_color
    };
    fill_rect(buffer, 720, 0, bar_top, 720, BAR_HEIGHT, bar_color);
    let oy: i64 = 10 + font.bar_ascent as i64;
    draw_glyphs(
        buffer,
        720,
        0,
        bar_top,
        &name.head,
        10,
        oy,
        720,
        BAR_HEIGHT,
        COVERAGE_MIN,
        head_med,
        head_color,
    );
    draw_glyphs(
        buffer,
        720,
        0,
        bar_top,
        &name.tail,
        10,
        oy,
        720,
        BAR_HEIGHT,
        COVERAGE_MIN,
        theme.med_text_color(),
        text_color,
    );
}

/// One more than the rightmost pixel column of a raster, at least 0.
pub open spec fn spec_text_width(pixels: Seq<GlyphPixel>) -> int
    decreases pixels.len(),
{
    if pixels.len() == 0 {
        0
    } else {
        let rest = spec_text_width(pixels.drop_first());
        let v = pixels[0].x + 1;
        if v > rest {
            v
        } else {
            rest
        }
    }
}

proof fn lemma_text_width_bounds(pixels: Seq<GlyphPixel>)
    ensures
        0 <= spec_text_width(pixels) <= 0x8000_0000,
    decreases pixels.len(),
{
    if pixels.len() > 0 {
        lemma_text_width_bounds(pixels.drop_first());
    }
}

fn text_width(pixels: &Vec<GlyphPixel>) -> (r: i64)
    ensures
        r == spec_text_width(pixels@),
        0 <= r <= 0x8000_0000,
{
    let ghost target = spec_text_width(pixels@);
    proof {
        assert(pixels@.skip(0) =~= pixels@);
        lemma_text_width_bounds(pixels@);
    }
    let mut acc: i64 = 0;
    let mut k: usize = 0;
    while k < pixels.len()
        invariant
            k <= pixels@.len(),
            acc >= 0,
            acc <= 0x8000_0000,
            target == if spec_text_width(pixels@.skip(k as int)) > acc {
                spec_text_width(pixels@.skip(k as int))
            } else {
                acc as int
            },
        decreases pixels@.len() - k,
    {
        let ghost rest = pixels@.skip(k as int);
        let p = pixels[k];
        proof {
            assert(rest[0] == pixels@[k as int]);
            assert(rest.drop_first() =~= pixels@.skip(k as int + 1));
            lemma_text_width_bounds(rest.drop_first());
        }
        let v: i64 = p.x as i64 + 1;
        if v > acc {
            acc = v;
        }
        k = k + 1;
    }
    proof {
        assert(pixels@.skip(pixels@.len() as int) =~= Seq::<GlyphPixel>::empty());
    }
    acc
}

/// Width of one clock region: the text width, no narrower than the
/// given minimum, clamped to the drawable span of the bar.
pub open spec fn spec_clock_region_width(pixels: Seq<GlyphPixel>, min_width: int) -> int {
    let tw = if spec_text_width(pixels) > min_width {
        spec_text_width(pixels)
    } else {
        min_width
    };
    if tw < 1 {
        1
    } else if tw > 700 {
        700
    } else {
        tw
    }
}

/// The clock region: bar background with the clock text right-aligned
/// in it, rendered into the top-left `width` x `BAR_HEIGHT` prefix of a
/// buffer laid out with stride `width`.
pub open spec fn spec_render_clock_region(
    data: Seq<u8>,
    atlas: Seq<u8>,
    clock: Seq<GlyphPixel>,
    min_width: int,
    ascent: int,
) -> Seq<u8> {
    let w = spec_clock_region_width(clock, min_width);
    let tw = spec_text_width(clock);
    let filled = spec_fill_rect(data, w, 0, 0, w, BAR_HEIGHT as int, atlas[360]);
    spec_draw_glyphs(
        filled,
        w,
        0,
        0,
        clock,
        w - tw,
        10 + ascent,
        w,
        BAR_HEIGHT as int,
        COVERAGE_MIN,
        atlas[600],
        atlas[420],
    )
}

/// Render a clock region into the buffer prefix and hand back its
/// width.
pub fn render_clock_region(
    buffer: &mut Vec<u8>,
    theme: &Theme,
    font: &FontGlyphs,
    clock: &ClockText,
    min_width: usize,
) -> (w: usize)
    requires
        old(buffer)@.len() >= 42000,
        min_width <= 700,
    ensures
        w == spec_clock_region_width(clock.raster@, min_width as int),
        1 <= w <= 700,
        final(buffer)@.len() == old(buffer)@.len(),
        spec_encodable(old(buffer)@) ==> spec_encodable(final(buffer)@),
        final(buffer)@ == spec_render_clock_region(
            old(buffer)@,
            theme.spec_atlas(),
            clock.raster@,
            min_width as int,
            font.clock_ascent as int,
        ),
{
    let tw: i64 = text_width(&clock.raster);
    let mut region_width: usize = if tw > min_width as i64 {
        if tw > 700 {
            700
        } else {
            tw as usize
        }
    } else {
        min_width
    };
    if region_width < 1 {
        region_width = 1;
    }
    proof {
        assert(region_width == spec_clock_region_width(clock.raster@, min_width as int));
    }
    fill_rect(buffer, region_width, 0, 0, region_width, BAR_HEIGHT, theme.bar_color());
    let ox: i64 = region_width as i64 - tw;
    draw_glyphs(
        buffer,
        region_width,
        0,
        0,
        &clock.raster,
        ox,
        10 + font.clock_ascent as i64,
        region_width,
        BAR_HEIGHT,
        COVERAGE_MIN,
        theme.med_text_color(),
        theme.text_color(),
    );
    region_width
}

/// Whether a cell-relative pixel lies inside the badge disc, which is
/// centered near the top-right corner of the square.
pub open spec fn spec_in_disc(c: int, r: int) -> bool {
    (2 * c - 143) * (2 * c - 143) + (2 * r - 35) * (2 * r - 35) <= 1225
}

/// One row of the badge disc: the pixels of row `row` (cell-relative)
/// inside the disc, at buffer offset `start`, painted `color`.
pub open spec fn spec_badge_row(data: Seq<u8>, start: int, row: int, color: u8) -> Seq<u8> {
    Seq::new(
        data.len(),
        |i: int| if start <= i < start + SQUARE && spec_in_disc(i - start, row) {
            color
        } else {
            data[i]
        },
    )
}

/// The full badge disc inside the cell whose top-left corner is at
/// (`x0`, `y0`), drawn row by row from cell-relative row `row`.
pub open spec fn spec_badge_disc(
    data: Seq<u8>,
    stride: int,
    x0: int,
    y0: int,
    row: int,
    rows: int,
    color: u8,
) -> Seq<u8>
    decreases rows,
{
    if rows <= 0 {
        data
    } else {
        spec_badge_disc(
            spec_badge_row(data, (y0 + row) * stride + x0, row, color),
            stride,
            x0,
            y0,
            row + 1,
            rows - 1,
            color,
        )
    }
}

fn badge_row(data: &mut Vec<u8>, start: usize, row: usize, color: u8)
    requires
        start + SQUARE <= old(data)@.len(),
        row < SQUARE,
    ensures
        final(data)@ == spec_badge_row(old(data)@, start as int, row as int, color),
        spec_encodable(old(data)@) && color < 255 ==> spec_encodable(final(data)@),
{
    let n: usize = data.len();
    let mut c: usize = 0;
    while c < SQUARE
        invariant
            c <= SQUARE,
            row < SQUARE,
            start + SQUARE <= n,
            n == data@.len(),
            data@.len() == old(data)@.len(),
            forall|i: int|
                0 <= i < data@.len() ==> data@[i] == (if start <= i < start + c && spec_in_disc(
                    i - start,
                    row as int,
                ) {
                    color
                } else {
                    old(data)@[i]
                }),
        decreases SQUARE - c,
    {
        let dx: i64 = 2 * (c as i64) - 143;
        let dy: i64 = 2 * (row as i64) - 35;
        proof {
            assert(dx * dx + dy * dy <= 100000) by (nonlinear_arith)
                requires
                    -143 <= dx <= 37,
                    -35 <= dy <= 143,
            ;
            assert(dx * dx >= 0 && dy * dy >= 0) by (nonlinear_arith);
        }
        if dx * dx + dy * dy <= 1225 {
            data[start + c] = color;
        }
        c = c + 1;
    }
    proof {
        assert(data@ =~= spec_badge_row(old(data)@, start as int, row as int, color));
    }
}

/// Draw the badge disc into the cell at (`x0`, `y0`).
pub fn badge_disc(data: &mut Vec<u8>, stride: usize, x0: usize, y0: usize, color: u8)
    requires
        1 <= stride,
        x0 + SQUARE <= stride,
        (y0 + SQUARE) * stride <= old(data)@.len(),
    ensures
        final(data)@.len() == old(data)@.len(),
        spec_encodable(old(data)@) && color < 255 ==> spec_encodable(final(data)@),
        final(data)@ == spec_badge_disc(
            old(data)@,
            stride as int,
            x0 as int,
            y0 as int,
            0,
            SQUARE as int,
            color,
        ),
{
    let ghost target = spec_badge_disc(
        old(data)@,
        stride as int,
        x0 as int,
        y0 as int,
        0,
        SQUARE as int,
        color,
    );
    let n: usize = data.len();
    proof {
        assert(y0 + SQUARE <= (y0 + SQUARE) * stride) by (nonlinear_arith)
            requires
                stride >= 1,
                y0 + SQUARE >= 0,
        ;
    }
    let mut r: usize = 0;
    while r < SQUARE
        invariant
            r <= SQUARE,
            1 <= stride,
            x0 + SQUARE <= stride,
            y0 + SQUARE <= n,
            (y0 + SQUARE) * stride <= n,
            n == data@.len(),
            data@.len() == old(data)@.len(),
            spec_encodable(old(data)@) && color < 255 ==> spec_encodable(data@),
            target == spec_badge_disc(
                data@,
                stride as int,
                x0 as int,
                y0 as int,
                r as int,
                (SQUARE - r) as int,
                color,
            ),
        decreases SQUARE - r,
    {
        proof {
            assert((y0 + r) * stride + stride == (y0 + r + 1) * stride) by (nonlinear_arith);
            assert((y0 + r + 1) * stride <= (y0 + SQUARE) * stride) by (nonlinear_arith)
                requires
                    r < SQUARE,
                    stride >= 0,
                    y0 + r + 1 <= y0 + SQUARE,
            ;
        }
        let start = (y0 + r) * stride + x0;
        badge_row(data, start, r, color);
        r = r + 1;
    }
}

/// Clamp a coordinate into the range a badge label can sensibly span.
pub open spec fn spec_clamp_coord(v: int) -> int {
    if v < -512 {
        -512
    } else if v > 511 {
        511
    } else {
        v
    }
}

/// The midpoint of a clamped coordinate range, rounded up.
pub open spec fn spec_mid(lo: int, hi: int) -> int {
    (spec_clamp_coord(lo) + spec_clamp_coord(hi) + 1 + 1024) / 2 - 512
}

fn clamp_coord(v: i64) -> (r: i64)
    ensures
        r == spec_clamp_coord(v as int),
{
    if v < -512 {
        -512
    } else if v > 511 {
        511
    } else {
        v
    }
}

fn mid_coord(lo: i64, hi: i64) -> (r: i64)
    ensures
        r == spec_mid(lo as int, hi as int),
        -512 <= r <= 512,
{
    let a = clamp_coord(lo);
    let b = clamp_coord(hi);
    (a + b + 1 + 1024) / 2 - 512
}

/// The smallest pixel column of a raster (0 for an empty raster).
pub open spec fn spec_min_x(pixels: Seq<GlyphPixel>) -> int
    decreases pixels.len(),
{
    if pixels.len() == 0 {
        0
    } else if pixels.len() == 1 {
        pixels[0].x as int
    } else {
        let rest = spec_min_x(pixels.drop_first());
        if pixels[0].x < rest {
            pixels[0].x as int
        } else {
            rest
        }
    }
}

/// The largest pixel column of a raster (0 for an empty raster).
pub open spec fn spec_max_x(pixels: Seq<GlyphPixel>) -> int
    decreases pixels.len(),
{
    if pixels.len() == 0 {
        0
    } else if pixels.len() == 1 {
        pixels[0].x as int
    } else {
        let rest = spec_max_x(pixels.drop_first());
        if pixels[0].x > rest {
            pixels[0].x as int
        } else {
            rest
        }
    }
}

/// The smallest pixel row of a raster (0 for an empty raster).
pub open spec fn spec_min_y(pixels: Seq<GlyphPixel>) -> int
    decreases pixels.len(),
{
    if pixels.len() == 0 {
        0
    } else if pixels.len() == 1 {
        pixels[0].y as int
    } else {
        let rest = spec_min_y(pixels.drop_first());
        if pixels[0].y < rest {
            pixels[0].y as int
        } else {
            rest
        }
    }
}

/// The largest pixel row of a raster (0 for an empty raster).
pub open spec fn spec_max_y(pixels: Seq<GlyphPixel>) -> int
    decreases pixels.len(),
{
    if pixels.len() == 0 {
        0
    } else if pixels.len() == 1 {
        pixels[0].y as int
    } else {
        let rest = spec_max_y(pixels.drop_first());
        if pixels[0].y > rest {
            pixels[0].y as int
        } else {
            rest
        }
    }
}

fn glyph_bounds(pixels: &Vec<GlyphPixel>) -> (r: (i64, i64, i64, i64))
    ensures
        r.0 == spec_min_x(pixels@),
        r.1 == spec_max_x(pixels@),
        r.2 == spec_min_y(pixels@),
        r.3 == spec_max_y(pixels@),
{
    if pixels.len() == 0 {
        return (0, 0, 0, 0);
    }
    let p0 = pixels[pixels.len() - 1];
    let mut min_x: i64 = p0.x as i64;
    let mut max_x: i64 = p0.x as i64;
    let mut min_y: i64 = p0.y as i64;
    let mut max_y: i64 = p0.y as i64;
    let mut k: usize = pixels.len();
    proof {
        assert(pixels@.skip(k - 1) =~= seq![pixels@[k - 1]]);
    }
    // Fold from the back so the accumulator mirrors the recursive
    // definitions, which split off the front element.
    while k > 1
        invariant
            1 <= k <= pixels@.len(),
            pixels@.len() >= 1,
            k == 1 ==> {
                &&& min_x == spec_min_x(pixels@)
                &&& max_x == spec_max_x(pixels@)
                &&& min_y == spec_min_y(pixels@)
                &&& max_y == spec_max_y(pixels@)
            },
            k > 1 ==> {
                &&& min_x == spec_min_x(pixels@.skip(k - 1))
                &&& max_x == spec_max_x(pixels@.skip(k - 1))
                &&& min_y == spec_min_y(pixels@.skip(k - 1))
                &&& max_y == spec_max_y(pixels@.skip(k - 1))
            },
        decreases k,
    {
        let p = pixels[k - 2];
        proof {
            let s = pixels@.skip(k - 2);
            assert(s[0] == pixels@[k - 2]);
            assert(s.drop_first() =~= pixels@.skip(k - 1));
            assert(s.len() >= 2 ==> s.drop_first().len() >= 1);
            if k - 2 == 0 {
                assert(s =~= pixels@);
            }
        }
        if (p.x as i64) < min_x {
            min_x = p.x as i64;
        }
        if (p.x as i64) > max_x {
            max_x = p.x as i64;
        }
        if (p.y as i64) < min_y {
            min_y = p.y as i64;
        }
        if (p.y as i64) > max_y {
            max_y = p.y as i64;
        }
        k = k - 1;
    }
    (min_x, max_x, min_y, max_y)
}

/// Coverage below this is not drawn in an annotation badge.
pub const BADGE_COVERAGE_MIN: u8 = 13;

/// Whether a square is dark (the bottom-left square is).
pub open spec fn spec_is_dark(sq: int) -> bool {
    ((sq % 8) + (sq / 8)) % 2 == 0
}

/// The rank that carries file labels for this orientation: the rank
/// nearest the viewer.
pub open spec fn spec_coord_rank(o: Orientation) -> int {
    if o == Orientation::White {
        0
    } else {
        7
    }
}

/// The file that carries rank labels for this orientation: the file at
/// the viewer's right.
pub open spec fn spec_coord_file(o: Orientation) -> int {
    if o == Orientation::White {
        7
    } else {
        0
    }
}

/// The background color of a square, from the atlas metadata row.
pub open spec fn spec_square_bg(atlas: Seq<u8>, highlighted: bool, dark: bool) -> u8 {
    if highlighted {
        if dark {
            atlas[270]
        } else {
            atlas[180]
        }
    } else {
        if dark {
            atlas[90]
        } else {
            atlas[0]
        }
    }
}

/// One changed square, fully redrawn: its sprite cell, then a file
/// and rank label on the near edges when coordinates are on, then the
/// annotation badge when this square is the highlighted destination of
/// an annotated move.
pub open spec fn spec_render_square(
    data: Seq<u8>,
    atlas: Seq<u8>,
    ext_idx: u8,
    font: FontGlyphs,
    o: Orientation,
    coordinates: Coordinates,
    frame: RenderFrame,
    xm: int,
    ym: int,
    w: int,
    y_base: int,
    sq: int,
) -> Seq<u8> {
    let x = o.spec_x(sq as u64);
    let y = o.spec_y(sq as u64);
    let left = (x - xm) * 90;
    let top = y_base + (y - ym) * 90;
    let piece = frame.board.spec_piece_at(sq as u64);
    let dark = spec_is_dark(sq);
    let highlight = bb_has(frame.highlighted, sq as u64);
    let key = SpriteKey { piece, dark_square: dark, highlight, check: bb_has(frame.checked, sq as u64) };
    let text_color = spec_square_bg(atlas, highlight, !dark);
    let bg_color = spec_square_bg(atlas, highlight, dark);
    let d1 = spec_blit_rect(data, w, left, top, atlas, 720, key.spec_x() * 90, key.spec_y() * 90, 90, 90);
    let d2 = if coordinates == Coordinates::Yes && sq / 8 == spec_coord_rank(o) {
        spec_draw_glyphs(
            d1,
            w,
            left,
            top,
            font.file_labels@[sq % 8]@,
            5,
            90 + font.coord_descent as int,
            90,
            90,
            COVERAGE_MIN,
            bg_color,
            text_color,
        )
    } else {
        d1
    };
    let d3 = if coordinates == Coordinates::Yes && sq % 8 == spec_coord_file(o) {
        spec_draw_glyphs(
            d2,
            w,
            left,
            top,
            font.rank_labels@[sq / 8]@,
            75,
            font.coord_ascent as int,
            90,
            90,
            COVERAGE_MIN,
            bg_color,
            text_color,
        )
    } else {
        d2
    };
    if frame.glyph is Some && highlight && piece is Some {
        let g = frame.glyph->0;
        let badge_color = (ext_idx + g.spec_index()) as u8;
        let raster = font.badge_labels@[g.spec_index() - 1]@;
        let ox = 72 - spec_mid(spec_min_x(raster), spec_max_x(raster));
        let oy = 18 - spec_mid(spec_min_y(raster), spec_max_y(raster));
        let d4 = spec_badge_disc(d3, w, left, top, 0, 90, badge_color);
        spec_draw_glyphs(
            d4,
            w,
            left,
            top,
            raster,
            ox,
            oy,
            90,
            90,
            BADGE_COVERAGE_MIN,
            ext_idx,
            ext_idx,
        )
    } else {
        d3
    }
}

/// Every changed square from `sq` up, redrawn in ascending square
/// order.
pub open spec fn spec_render_squares(
    data: Seq<u8>,
    atlas: Seq<u8>,
    ext_idx: u8,
    font: FontGlyphs,
    o: Orientation,
    coordinates: Coordinates,
    diff: u64,
    frame: RenderFrame,
    xm: int,
    ym: int,
    w: int,
    y_base: int,
    sq: int,
) -> Seq<u8>
    decreases 64 - sq,
{
    if sq < 0 || sq >= 64 {
        data
    } else {
        let d = if bb_has(diff, sq as u64) {
            spec_render_square(
                data,
                atlas,
                ext_idx,
                font,
                o,
                coordinates,
                frame,
                xm,
                ym,
                w,
                y_base,
                sq,
            )
        } else {
            data
        };
        spec_render_squares(
            d,
            atlas,
            ext_idx,
            font,
            o,
            coordinates,
            diff,
            frame,
            xm,
            ym,
            w,
            y_base,
            sq + 1,
        )
    }
}

/// The composited region for one frame: the bounding box of the
/// changed squares, pre-filled with the transparent color when drawn
/// over a previous frame, with every changed square redrawn.
pub open spec fn spec_render_region(
    data: Seq<u8>,
    atlas: Seq<u8>,
    ext_idx: u8,
    font: FontGlyphs,
    o: Orientation,
    coordinates: Coordinates,
    prev_some: bool,
    diff: u64,
    frame: RenderFrame,
    y_base: int,
) -> Seq<u8> {
    let b = spec_bbox(diff, o);
    let w = (b.2 - b.0) * 90;
    let h = (b.3 - b.1) * 90;
    let d0 = if prev_some {
        spec_fill_rect(data, w, 0, y_base, w, h, atlas[660])
    } else {
        data
    };
    spec_render_squares(d0, atlas, ext_idx, font, o, coordinates, diff, frame, b.0, b.1, w, y_base, 0)
}

fn render_square(
    buffer: &mut Vec<u8>,
    theme: &Theme,
    font: &FontGlyphs,
    orientation: Orientation,
    coordinates: Coordinates,
    frame: &RenderFrame,
    xm: usize,
    ym: usize,
    w: usize,
    y_base: usize,
    sq: u8,
)
    requires
        sq < 64,
        y_base <= 60,
        90 <= w <= 720,
        xm <= orientation.spec_x(sq as u64),
        (orientation.spec_x(sq as u64) - xm + 1) * 90 <= w,
        ym <= orientation.spec_y(sq as u64),
        (y_base + (orientation.spec_y(sq as u64) - ym + 1) * 90) * w <= old(buffer)@.len(),
    ensures
        final(buffer)@.len() == old(buffer)@.len(),
        spec_encodable(old(buffer)@) ==> spec_encodable(final(buffer)@),
        final(buffer)@ == spec_render_square(
            old(buffer)@,
            theme.spec_atlas(),
            theme.spec_extended_idx(),
            *font,
            orientation,
            coordinates,
            *frame,
            xm as int,
            ym as int,
            w as int,
            y_base as int,
            sq as int,
        ),
{
    let x = orientation.x(sq);
    let y = orientation.y(sq);
    let left = (x - xm) * 90;
    let top = y_base + (y - ym) * 90;
    proof {
        assert((y_base + (orientation.spec_y(sq as u64) - ym) * 90 + 90) * w <= old(
            buffer,
        )@.len());
        assert((top + 90) * w <= old(buffer)@.len());
    }
    let file = sq % 8;
    let rank = sq / 8;
    let dark = (file + rank) % 2 == 0;
    let highlight = frame.highlighted & (1u64 << sq) != 0;
    let check = frame.checked & (1u64 << sq) != 0;
    let piece = frame.board.piece_at(sq);
    let key = SpriteKey { piece, dark_square: dark, highlight, check };
    let kx = key.x();
    let ky = key.y();
    let atlas = theme.atlas();
    blit_rect(buffer, w, left, top, atlas, 720, kx * 90, ky * 90, 90, 90);
    if matches!(coordinates, Coordinates::Yes) {
        let text_color = get_square_background_color(highlight, !dark, theme);
        let bg_color = get_square_background_color(highlight, dark, theme);
        let coord_rank: u8 = match orientation {
            Orientation::White => 0,
            Orientation::Black => 7,
        };
        let coord_file: u8 = match orientation {
            Orientation::White => 7,
            Orientation::Black => 0,
        };
        if rank == coord_rank {
            draw_glyphs(
                buffer,
                w,
                left,
                top,
                &font.file_labels[file as usize],
                5,
                90 + font.coord_descent as i64,
                90,
                90,
                COVERAGE_MIN,
                bg_color,
                text_color,
            );
        }
        if file == coord_file {
            draw_glyphs(
                buffer,
                w,
                left,
                top,
                &font.rank_labels[rank as usize],
                75,
                font.coord_ascent as i64,
                90,
                90,
                COVERAGE_MIN,
                bg_color,
                text_color,
            );
        }
    }
    if let Some(g) = frame.glyph {
        if highlight && piece.is_some() {
            let badge_color = theme.move_color(g);
            let text_color = theme.glyph_text_color();
            let idx = (g.index() - 1) as usize;
            let raster = &font.badge_labels[idx];
            let (min_x, max_x, min_y, max_y) = glyph_bounds(raster);
            let ox: i64 = 72 - mid_coord(min_x, max_x);
            let oy: i64 = 18 - mid_coord(min_y, max_y);
            badge_disc(buffer, w, left, top, badge_color);
            draw_glyphs(
                buffer,
                w,
                left,
                top,
                raster,
                ox,
                oy,
                90,
                90,
                BADGE_COVERAGE_MIN,
                text_color,
                text_color,
            );
        }
    }
}

/// Composite the changed region for one frame into the buffer and hand
/// back the region's pixel origin and size on the board canvas; an
/// empty changed set yields a zero-sized region and leaves the buffer
/// untouched.
pub fn render_diff(
    buffer: &mut Vec<u8>,
    theme: &Theme,
    orientation: Orientation,
    coordinates: Coordinates,
    prev_some: bool,
    diff: u64,
    frame: &RenderFrame,
    font: &FontGlyphs,
    y_base: usize,
) -> (r: ((usize, usize), (usize, usize)))
    requires
        y_base <= 60,
        (y_base + 720) * 720 <= old(buffer)@.len(),
    ensures
        ({
            let b = spec_bbox(diff, orientation);
            &&& r.0.0 == b.0 * 90
            &&& r.0.1 == b.1 * 90
            &&& r.1.0 == (b.2 - b.0) * 90
            &&& r.1.1 == (b.3 - b.1) * 90
            &&& diff != 0 ==> 90 <= r.1.0 && 90 <= r.1.1
            &&& diff == 0 ==> r == ((0usize, 0usize), (0usize, 0usize))
            &&& r.1.0 <= 720
            &&& r.1.1 <= 720
            &&& r.0.0 + r.1.0 <= 720
            &&& r.0.1 + r.1.1 <= 720
        }),
        final(buffer)@.len() == old(buffer)@.len(),
        spec_encodable(old(buffer)@) ==> spec_encodable(final(buffer)@),
        final(buffer)@ == spec_render_region(
            old(buffer)@,
            theme.spec_atlas(),
            theme.spec_extended_idx(),
            *font,
            orientation,
            coordinates,
            prev_some,
            diff,
            *frame,
            y_base as int,
        ),
{
    let (x_min, y_min, x_max, y_max) = diff_bounding_box(diff, orientation);
    let w = (x_max - x_min) * 90;
    let h = (y_max - y_min) * 90;
    proof {
        assert((y_base + h) * w <= (y_base + 720) * 720) by (nonlinear_arith)
            requires
                0 <= y_base,
                0 <= h <= 720,
                0 <= w <= 720,
        ;
    }
    if prev_some && h > 0 {
        fill_rect(buffer, w, 0, y_base, w, h, theme.transparent_color());
    }
    let ghost b = spec_bbox(diff, orientation);
    let ghost target = spec_render_squares(
        buffer@,
        theme.spec_atlas(),
        theme.spec_extended_idx(),
        *font,
        orientation,
        coordinates,
        diff,
        *frame,
        b.0,
        b.1,
        w as int,
        y_base as int,
        0,
    );
    let mut sq: u8 = 0;
    while sq < 64
        invariant
            sq <= 64,
            w <= 720,
            h <= 720,
            diff != 0 ==> 90 <= w && 90 <= h && x_min < x_max && y_min < y_max,
            diff == 0 ==> w == 0 && h == 0,
            y_base <= 60,
            x_min == b.0,
            y_min == b.1,
            x_max == b.2,
            y_max == b.3,
            x_max <= 8,
            y_max <= 8,
            w == (x_max - x_min) * 90,
            h == (y_max - y_min) * 90,
            (y_base + h) * w <= buffer@.len(),
            buffer@.len() == old(buffer)@.len(),
            spec_encodable(old(buffer)@) ==> spec_encodable(buffer@),
            diff != 0 ==> forall|t: u64|
                t < 64 && bb_has(diff, t) ==> x_min <= orientation.spec_x(t) < x_max && y_min
                    <= orientation.spec_y(t) < y_max,
            target == spec_render_squares(
                buffer@,
                theme.spec_atlas(),
                theme.spec_extended_idx(),
                *font,
                orientation,
                coordinates,
                diff,
                *frame,
                b.0,
                b.1,
                w as int,
                y_base as int,
                sq as int,
            ),
        decreases 64 - sq,
    {
        if diff & (1u64 << sq) != 0 {
            proof {
                assert(bb_has(diff, sq as u64));
                assert(diff != 0) by (bit_vector)
                    requires
                        diff & (1u64 << (sq as u64)) != 0,
                ;
                assert((y_base + (orientation.spec_y(sq as u64) - y_min + 1) * 90) * w <= (y_base
                    + h) * w) by (nonlinear_arith)
                    requires
                        (orientation.spec_y(sq as u64) - y_min + 1) * 90 <= h,
                        0 <= y_base,
                        0 <= w,
                ;
            }
            render_square(
                buffer,
                theme,
                font,
                orientation,
                coordinates,
                frame,
                x_min,
                y_min,
                w,
                y_base,
                sq,
            );
        }
        sq = sq + 1;
    }
    ((x_min * 90, y_min * 90), (w, h))
}

/// A vector of `n` copies of `color`.
fn filled_vec(n: usize, color: u8) -> (r: Vec<u8>)
    ensures
        r@ == Seq::new(n as nat, |i: int| color),
        color < 255 ==> spec_encodable(r@),
{
    let mut out: Vec<u8> = Vec::new();
    let mut i: usize = 0;
    while i < n
        invariant
            i <= n,
            out@ == Seq::new(i as nat, |j: int| color),
        decreases n - i,
    {
        out.push(color);
        i = i + 1;
        proof {
            assert(out@ =~= Seq::new(i as nat, |j: int| color));
        }
    }
    out
}

/// The provenance comment written when a render carries none of its
/// own: the name of this crate.
pub open spec fn spec_default_comment() -> Seq<u8> {
    seq![0x63u8, 0x68u8, 0x65u8, 0x73u8, 0x73u8, 0x5Fu8, 0x67u8, 0x69u8, 0x66u8]
}

fn default_comment() -> (r: Vec<u8>)
    ensures
        r@ == spec_default_comment(),
{
    let mut out: Vec<u8> = Vec::new();
    out.push(0x63);
    out.push(0x68);
    out.push(0x65);
    out.push(0x73);
    out.push(0x73);
    out.push(0x5F);
    out.push(0x67);
    out.push(0x69);
    out.push(0x66);
    proof {
        assert(out@ =~= spec_default_comment());
    }
    out
}

/// The clock shown in the top bar (the far side's) or the bottom bar
/// (the near side's) for this orientation.
pub open spec fn spec_frame_clock(frame: RenderFrame, o: Orientation, top: bool) -> Option<
    ClockText,
> {
    if top == (o == Orientation::White) {
        frame.black_clock
    } else {
        frame.white_clock
    }
}

fn frame_clock<'b>(frame: &'b RenderFrame, orientation: Orientation, top: bool) -> (r: Option<
    &'b ClockText,
>)
    ensures
        r is Some <==> spec_frame_clock(*frame, orientation, top) is Some,
        r matches Some(c) ==> spec_frame_clock(*frame, orientation, top) == Some(*c),
{
    let slot: &Option<ClockText> = if top == matches!(orientation, Orientation::White) {
        &frame.black_clock
    } else {
        &frame.white_clock
    };
    match slot {
        Some(c) => Some(c),
        None => None,
    }
}

/// The production state of one render: before any output, after frame
/// `k` was composited, or finished.
#[derive(Clone, Copy, Debug, PartialEq, Eq, Structural)]
pub enum RenderState {
    Preamble,
    Frame(usize),
    Complete,
}

/// The part of a render that changes from chunk to chunk, as plain
/// mathematical values.
pub struct MachineState {
    pub state: RenderState,
    pub buffer: Seq<u8>,
    pub widths: (int, int),
}

/// The block-by-block GIF producer: pulls one frame at a time, diffs it
/// against the previous one, composites the changed region, and hands
/// back the GIF blocks as one byte chunk per step.
pub struct Render<'a> {
    theme: &'a Theme,
    font: &'a FontGlyphs,
    state: RenderState,
    buffer: Vec<u8>,
    comment: Option<Vec<u8>>,
    bars: Option<PlayerBars>,
    orientation: Orientation,
    coordinates: Coordinates,
    frames: Vec<RenderFrame>,
    kork: bool,
    clock_widths: (usize, usize),
}

impl<'a> Render<'a> {
    /// The render's well-formedness: at least one frame, a state index
    /// within the frame list, a buffer sized to the canvas, a comment
    /// that fits one GIF sub-block, and clock widths within the bar.
    pub closed spec fn wf(self) -> bool {
        &&& self.frames@.len() >= 1
        &&& (forall|k: usize| self.state == RenderState::Frame(k) ==> k < self.frames@.len())
        &&& self.buffer@.len() == self.spec_canvas_h() * 720
        &&& spec_encodable(self.buffer@)
        &&& (self.comment matches Some(c) ==> 1 <= c@.len() <= 255)
        &&& self.clock_widths.0 <= 700
        &&& self.clock_widths.1 <= 700
    }

    /// Canvas height in pixels: the board plus two bars when present.
    pub closed spec fn spec_canvas_h(self) -> int {
        if self.bars is Some {
            840
        } else {
            720
        }
    }

    /// Whether the producer has emitted its last chunk.
    pub closed spec fn spec_done(self) -> bool {
        self.state == RenderState::Complete
    }

    /// How many frames the producer holds.
    pub closed spec fn spec_frame_count(self) -> nat {
        self.frames@.len()
    }

    /// At least one frame is always held.
    pub closed spec fn wf_frames(self) -> bool {
        self.frames@.len() >= 1
    }

    /// The changing part of the render.
    pub closed spec fn spec_mstate(self) -> MachineState {
        MachineState {
            state: self.state,
            buffer: self.buffer@,
            widths: (self.clock_widths.0 as int, self.clock_widths.1 as int),
        }
    }

    /// Everything the producer never changes after construction.
    pub closed spec fn spec_frozen(self) -> (
        Theme,
        FontGlyphs,
        Option<Vec<u8>>,
        Option<PlayerBars>,
        Orientation,
        Coordinates,
        Seq<RenderFrame>,
        bool,
    ) {
        (
            *self.theme,
            *self.font,
            self.comment,
            self.bars,
            self.orientation,
            self.coordinates,
            self.frames@,
            self.kork,
        )
    }

    /// The canvas after the preamble compositing: both bars with their
    /// names, the first frame's clocks, and the full first board.
    pub closed spec fn spec_preamble_buffer(self, m: MachineState) -> Seq<u8> {
        let atlas = self.theme.spec_atlas();
        let f0 = self.frames@[0];
        match self.bars {
            Some(pb) => {
                let top_name = if self.orientation == Orientation::White {
                    pb.black
                } else {
                    pb.white
                };
                let btm_name = if self.orientation == Orientation::White {
                    pb.white
                } else {
                    pb.black
                };
                let b1 = spec_render_bar(m.buffer, atlas, 0, top_name, self.font.bar_ascent as int);
                let b2 = spec_render_bar(b1, atlas, 780, btm_name, self.font.bar_ascent as int);
                let b3 = match spec_frame_clock(f0, self.orientation, true) {
                    Some(ct) => spec_blit_clock(
                        b2,
                        atlas,
                        ct.raster@,
                        m.widths.0,
                        self.font.clock_ascent as int,
                        0,
                    ),
                    None => b2,
                };
                let b4 = match spec_frame_clock(f0, self.orientation, false) {
                    Some(ct) => spec_blit_clock(
                        b3,
                        atlas,
                        ct.raster@,
                        m.widths.1,
                        self.font.clock_ascent as int,
                        780,
                    ),
                    None => b3,
                };
                spec_render_region(
                    b4,
                    atlas,
                    self.theme.spec_extended_idx(),
                    *self.font,
                    self.orientation,
                    self.coordinates,
                    false,
                    FULL_BOARD,
                    f0,
                    60,
                )
            },
            None => spec_render_region(
                m.buffer,
                atlas,
                self.theme.spec_extended_idx(),
                *self.font,
                self.orientation,
                self.coordinates,
                false,
                FULL_BOARD,
                f0,
                0,
            ),
        }
    }

    /// The clock widths after the preamble: set for each side whose
    /// clock was drawn.
    pub closed spec fn spec_preamble_widths(self, m: MachineState) -> (int, int) {
        let f0 = self.frames@[0];
        let w0 = if self.bars is Some && spec_frame_clock(f0, self.orientation, true) is Some {
            spec_clock_region_width(
                spec_frame_clock(f0, self.orientation, true)->0.raster@,
                m.widths.0,
            )
        } else {
            m.widths.0
        };
        let w1 = if self.bars is Some && spec_frame_clock(f0, self.orientation, false) is Some {
            spec_clock_region_width(
                spec_frame_clock(f0, self.orientation, false)->0.raster@,
                m.widths.1,
            )
        } else {
            m.widths.1
        };
        (w0, w1)
    }

    /// The bytes of the preamble chunk: header, screen descriptor,
    /// global color table, loop extension, the optional comment, the
    /// optional first delay, and the full-canvas first image.
    pub closed spec fn spec_preamble_chunk(self, m: MachineState) -> Seq<u8> {
        let f0 = self.frames@[0];
        let ch = self.spec_canvas_h();
        let head = spec_header() + spec_screen_desc(720, ch as u16, self.theme.spec_table_len())
            + self.theme.spec_table() + spec_loop_forever();
        let with_comment = head + (match self.comment {
            Some(c) => spec_comment(c@),
            None => Seq::<u8>::empty(),
        });
        let with_delay = with_comment + (match f0.delay {
            Some(d) => spec_graphic_control(false, None, d),
            None => Seq::<u8>::empty(),
        });
        with_delay + spec_image_desc(0, 0, 720, ch as u16) + lzw_image_block_of(
            self.spec_preamble_buffer(m),
        )
    }

    /// Whether the clock on one side must be re-emitted for frame
    /// `k + 1`: it is present and differs from the previous frame's.
    pub closed spec fn spec_clock_changed(self, k: int, top: bool) -> bool {
        let prev = self.frames@[k];
        let f = self.frames@[k + 1];
        &&& self.bars is Some
        &&& spec_frame_clock(f, self.orientation, top) is Some
        &&& match spec_frame_clock(prev, self.orientation, top) {
            Some(p) => p.centis != spec_frame_clock(f, self.orientation, top)->0.centis,
            None => true,
        }
    }

    /// The bytes of the chunk for frame `k + 1`, the buffer and the
    /// clock widths it leaves behind: any changed clock regions, then
    /// the frame's diff region.
    pub closed spec fn spec_frame_step(self, m: MachineState, k: int) -> (Seq<u8>, Seq<u8>, (int, int)) {
        let prev = self.frames@[k];
        let f = self.frames@[k + 1];
        let atlas = self.theme.spec_atlas();
        let (bytes0, b1, w0) = if self.spec_clock_changed(k, true) {
            spec_clock_block(
                m.buffer,
                atlas,
                spec_frame_clock(f, self.orientation, true)->0.raster@,
                m.widths.0,
                self.font.clock_ascent as int,
                0,
            )
        } else {
            (Seq::<u8>::empty(), m.buffer, m.widths.0)
        };
        let (bytes1, b2, w1) = if self.spec_clock_changed(k, false) {
            spec_clock_block(
                b1,
                atlas,
                spec_frame_clock(f, self.orientation, false)->0.raster@,
                m.widths.1,
                self.font.clock_ascent as int,
                780,
            )
        } else {
            (Seq::<u8>::empty(), b1, m.widths.1)
        };
        let board = spec_board_block(
            b2,
            atlas,
            self.theme.spec_extended_idx(),
            *self.font,
            self.orientation,
            self.coordinates,
            self.bars is Some,
            prev,
            f,
        );
        (bytes0 + bytes1 + board.0, board.1, (w0, w1))
    }

    /// The bytes of the closing chunk: the defensive trailing frame
    /// when requested, then the trailer.
    pub closed spec fn spec_tail_chunk(self) -> Seq<u8> {
        let atlas = self.theme.spec_atlas();
        let ch = self.spec_canvas_h();
        if self.kork {
            spec_graphic_control(true, Some(atlas[660]), 1) + spec_image_desc(
                0,
                0,
                720,
                ch as u16,
            ) + lzw_image_block_of(Seq::new((ch * 720) as nat, |i: int| atlas[360]))
                + spec_trailer()
        } else {
            spec_trailer()
        }
    }

    /// The chunk produced in machine state `m` (empty once complete).
    pub closed spec fn spec_chunk_at(self, m: MachineState) -> Seq<u8> {
        match m.state {
            RenderState::Preamble => self.spec_preamble_chunk(m),
            RenderState::Frame(k) => if k + 1 < self.frames@.len() && k + 1 <= usize::MAX {
                self.spec_frame_step(m, k as int).0
            } else {
                self.spec_tail_chunk()
            },
            RenderState::Complete => Seq::<u8>::empty(),
        }
    }

    /// The machine state after one step from `m`.
    pub closed spec fn spec_next_at(self, m: MachineState) -> MachineState {
        match m.state {
            RenderState::Preamble => MachineState {
                state: RenderState::Frame(0),
                buffer: self.spec_preamble_buffer(m),
                widths: self.spec_preamble_widths(m),
            },
            RenderState::Frame(k) => if k + 1 < self.frames@.len() && k + 1 <= usize::MAX {
                let s = self.spec_frame_step(m, k as int);
                MachineState {
                    state: RenderState::Frame((k + 1) as usize),
                    buffer: s.1,
                    widths: s.2,
                }
            } else {
                MachineState { state: RenderState::Complete, buffer: m.buffer, widths: m.widths }
            },
            RenderState::Complete => m,
        }
    }

    /// Steps remaining from machine state `m`.
    pub closed spec fn spec_measure(self, m: MachineState) -> nat {
        match m.state {
            RenderState::Preamble => self.frames@.len() + 2,
            RenderState::Frame(k) => if (k as int) < self.frames@.len() {
                (self.frames@.len() - k) as nat
            } else {
                1
            },
            RenderState::Complete => 0,
        }
    }

    /// The whole remaining output from machine state `m`: the
    /// concatenation of every chunk still to come.
    pub closed spec fn spec_output_at(self, m: MachineState) -> Seq<u8>
        decreases self.spec_measure(m),
        via Self::lemma_output_at_decreases
    {
        if m.state == RenderState::Complete {
            Seq::<u8>::empty()
        } else {
            self.spec_chunk_at(m) + self.spec_output_at(self.spec_next_at(m))
        }
    }

    #[via_fn]
    proof fn lemma_output_at_decreases(self, m: MachineState) {
        if m.state != RenderState::Complete {
            self.lemma_measure_decreases(m);
        }
    }

    proof fn lemma_measure_decreases(self, m: MachineState)
        requires
            m.state != RenderState::Complete,
        ensures
            self.spec_measure(self.spec_next_at(m)) < self.spec_measure(m),
    {
        let len = self.frames@.len() as int;
        match m.state {
            RenderState::Preamble => {
                assert(self.spec_next_at(m).state == RenderState::Frame(0));
                if len >= 1 {
                    assert(self.spec_measure(self.spec_next_at(m)) == len);
                } else {
                    assert(self.spec_measure(self.spec_next_at(m)) == 1);
                }
            },
            RenderState::Frame(k) => {
                if k + 1 < len && k + 1 <= usize::MAX {
                    assert(self.spec_measure(self.spec_next_at(m)) == len - (k + 1));
                    assert(self.spec_measure(m) == len - k);
                } else {
                    assert(self.spec_measure(self.spec_next_at(m)) == 0);
                    assert(self.spec_measure(m) >= 1);
                }
            },
            RenderState::Complete => {},
        }
    }
}

/// The clock list index consulted for ply `i`: the clock after the
/// move two plies back on the same side.
pub open spec fn spec_clock_index(i: int, sub: int) -> int {
    if i >= sub {
        (i - sub) / 2
    } else {
        0
    }
}

/// The clock shown for ply `i`, taken from the white or black clock
/// list when it reaches that far.
pub open spec fn spec_anim_clock(clocks: Option<Clocks>, white_list: bool, i: int) -> Option<
    ClockText,
> {
    match clocks {
        Some(c) => {
            let lst = if white_list {
                c.white@
            } else {
                c.black@
            };
            let idx = spec_clock_index(
                i,
                if white_list {
                    1
                } else {
                    2
                },
            );
            if 0 <= idx < lst.len() {
                Some(lst[idx])
            } else {
                None
            }
        },
        None => None,
    }
}

/// The frame built from position `i` of an animation request.
pub open spec fn spec_anim_frame(params: RequestBody, i: int) -> RenderFrame {
    let rf = params.frames@[i];
    RenderFrame {
        board: rf.board,
        highlighted: spec_highlight(rf.last_move),
        checked: spec_check_bb(rf.check.spec_to_square(rf.board, rf.turn)),
        delay: Some(
            match rf.delay {
                Some(d) => d,
                None => params.delay,
            },
        ),
        glyph: rf.glyph,
        white_clock: spec_anim_clock(params.clocks, true, i),
        black_clock: spec_anim_clock(params.clocks, false, i),
    }
}

/// Two optional clocks showing the same value and pixels.
pub open spec fn spec_clock_matches(a: Option<ClockText>, b: Option<ClockText>) -> bool {
    match (a, b) {
        (Some(x), Some(y)) => x.centis == y.centis && x.raster@ == y.raster@,
        (None, None) => true,
        _ => false,
    }
}

/// Two frames describing the same picture.
pub open spec fn spec_frame_matches(a: RenderFrame, b: RenderFrame) -> bool {
    &&& a.board == b.board
    &&& a.highlighted == b.highlighted
    &&& a.checked == b.checked
    &&& a.delay == b.delay
    &&& a.glyph == b.glyph
    &&& spec_clock_matches(a.white_clock, b.white_clock)
    &&& spec_clock_matches(a.black_clock, b.black_clock)
}

impl<'a> Render<'a> {
    /// A renderer for a single still image of one position.
    pub fn new_image(themes: &'a Themes, params: RequestParams) -> (r: Render<'a>)
        requires
            params.check.wf(),
            crate::api::spec_move_wf(params.last_move),
            params.comment matches Some(c) ==> c@.len() <= 255,
        ensures
            r.wf(),
            r.spec_mstate().state == RenderState::Preamble,
            r.spec_mstate().widths == (0int, 0int),
            r.spec_mstate().buffer == Seq::new((r.spec_canvas_h() * 720) as nat, |i: int| 0u8),
            r.spec_frozen().0 == themes.spec_map().spec_get(params.theme).spec_get(params.piece),
            r.spec_frozen().1 == themes.spec_font(),
            r.spec_frozen().4 == params.orientation,
            r.spec_frozen().5 == params.coordinates,
            r.spec_frozen().7 == false,
            r.spec_frozen().6.len() == 1,
            r.spec_frozen().6[0] == (RenderFrame {
                board: params.board,
                highlighted: spec_highlight(params.last_move),
                checked: spec_check_bb(params.check.spec_to_square(params.board, params.turn)),
                delay: None,
                glyph: None,
                white_clock: None,
                black_clock: None,
            }),
            params.comment is None ==> (r.spec_frozen().2 matches Some(c) && c@
                == spec_default_comment()),
            params.comment matches Some(c) ==> r.spec_frozen().2 == (if c@.len() >= 1 {
                Some(c)
            } else {
                None
            }),
            r.spec_canvas_h() == (if r.spec_frozen().3 is Some {
                840int
            } else {
                720int
            }),
            r.spec_frozen().3 is Some <==> ((params.white matches Some(w) && w.name@.len() > 0) || (
            params.black matches Some(b) && b.name@.len() > 0)),
            r.spec_frozen().3 matches Some(pb) ==> {
                &&& (params.white matches Some(w) ==> (w.name@.len() > 0 ==> spec_name_matches(
                    pb.white,
                    w,
                )))
                &&& (!(params.white matches Some(w) && w.name@.len() > 0)
                    ==> pb.white.name@.len() == 0 && pb.white.head@.len() == 0
                    && pb.white.tail@.len() == 0)
                &&& (params.black matches Some(b) ==> (b.name@.len() > 0 ==> spec_name_matches(
                    pb.black,
                    b,
                )))
                &&& (!(params.black matches Some(b) && b.name@.len() > 0)
                    ==> pb.black.name@.len() == 0 && pb.black.head@.len() == 0
                    && pb.black.tail@.len() == 0)
            },
    {
        let bars = PlayerBars::from(params.white, params.black, false);
        let theme = themes.get(params.theme, params.piece);
        let height: usize = if bars.is_some() {
            840
        } else {
            720
        };
        let buffer = filled_vec(height * 720, 0);
        let checked = check_bb(params.check.to_square(&params.board, params.turn));
        let highlighted = highlight_uci(params.last_move);
        let frame = RenderFrame {
            board: params.board,
            highlighted,
            checked,
            delay: None,
            glyph: None,
            white_clock: None,
            black_clock: None,
        };
        let mut frames: Vec<RenderFrame> = Vec::new();
        frames.push(frame);
        let comment = match params.comment {
            Some(c) => if c.len() >= 1 {
                Some(c)
            } else {
                None
            },
            None => Some(default_comment()),
        };
        Render {
            theme,
            font: themes.font(),
            state: RenderState::Preamble,
            buffer,
            comment,
            bars,
            orientation: params.orientation,
            coordinates: params.coordinates,
            frames,
            kork: false,
            clock_widths: (0, 0),
        }
    }

    /// A renderer for an animation over a sequence of positions.
    pub fn new_animation(themes: &'a Themes, params: RequestBody) -> (r: Render<'a>)
        requires
            forall|i: int|
                0 <= i < params.frames@.len() ==> (#[trigger] params.frames@[i]).check.wf()
                    && crate::api::spec_move_wf(params.frames@[i].last_move),
            params.comment matches Some(c) ==> c@.len() <= 255,
        ensures
            r.wf(),
            r.spec_mstate().state == RenderState::Preamble,
            r.spec_mstate().widths == (0int, 0int),
            r.spec_mstate().buffer == Seq::new((r.spec_canvas_h() * 720) as nat, |i: int| 0u8),
            r.spec_frozen().0 == themes.spec_map().spec_get(params.theme).spec_get(params.piece),
            r.spec_frozen().1 == themes.spec_font(),
            r.spec_frozen().4 == params.orientation,
            r.spec_frozen().5 == params.coordinates,
            r.spec_frozen().7 == params.kork,
            params.frames@.len() == 0 ==> r.spec_frozen().6.len() == 1
                && r.spec_frozen().6[0].board == crate::board::Board::spec_empty()
                && r.spec_frozen().6[0].highlighted == 0 && r.spec_frozen().6[0].checked == 0
                && r.spec_frozen().6[0].delay is None && r.spec_frozen().6[0].glyph is None
                && r.spec_frozen().6[0].white_clock is None
                && r.spec_frozen().6[0].black_clock is None,
            params.frames@.len() > 0 ==> r.spec_frozen().6.len() == params.frames@.len() && forall|
                i: int,
            |
                0 <= i < params.frames@.len() ==> spec_frame_matches(
                    #[trigger] r.spec_frozen().6[i],
                    spec_anim_frame(params, i),
                ),
            params.comment is None ==> (r.spec_frozen().2 matches Some(c) && c@
                == spec_default_comment()),
            params.comment matches Some(c) ==> r.spec_frozen().2 == (if c@.len() >= 1 {
                Some(c)
            } else {
                None
            }),
            r.spec_canvas_h() == (if r.spec_frozen().3 is Some {
                840int
            } else {
                720int
            }),
            r.spec_frozen().3 is Some <==> ((params.white matches Some(w) && w.name@.len() > 0) || (
            params.black matches Some(b) && b.name@.len() > 0) || params.clocks is Some),
            r.spec_frozen().3 matches Some(pb) ==> {
                &&& (params.white matches Some(w) ==> (w.name@.len() > 0 ==> spec_name_matches(
                    pb.white,
                    w,
                )))
                &&& (!(params.white matches Some(w) && w.name@.len() > 0)
                    ==> pb.white.name@.len() == 0 && pb.white.head@.len() == 0
                    && pb.white.tail@.len() == 0)
                &&& (params.black matches Some(b) ==> (b.name@.len() > 0 ==> spec_name_matches(
                    pb.black,
                    b,
                )))
                &&& (!(params.black matches Some(b) && b.name@.len() > 0)
                    ==> pb.black.name@.len() == 0 && pb.black.head@.len() == 0
                    && pb.black.tail@.len() == 0)
            },
    {
        let has_clocks = params.clocks.is_some();
        let bars = PlayerBars::from(params.white, params.black, has_clocks);
        let theme = themes.get(params.theme, params.piece);
        let height: usize = if bars.is_some() {
            840
        } else {
            720
        };
        let buffer = filled_vec(height * 720, 0);
        let n = params.frames.len();
        let mut frames: Vec<RenderFrame> = Vec::new();
        if n == 0 {
            frames.push(RenderFrame::default_frame());
        } else {
            let mut i: usize = 0;
            while i < n
                invariant
                    i <= n,
                    n == params.frames@.len(),
                    frames@.len() == i,
                    forall|i2: int|
                        0 <= i2 < n ==> (#[trigger] params.frames@[i2]).check.wf()
                            && crate::api::spec_move_wf(params.frames@[i2].last_move),
                    forall|j: int|
                        0 <= j < i ==> spec_frame_matches(
                            #[trigger] frames@[j],
                            spec_anim_frame(params, j),
                        ),
                decreases n - i,
            {
                let rf = params.frames[i];
                let white_clock: Option<ClockText> = match &params.clocks {
                    Some(c) => {
                        let idx: usize = if i >= 1 {
                            (i - 1) / 2
                        } else {
                            0
                        };
                        if idx < c.white.len() {
                            Some(c.white[idx].clone())
                        } else {
                            None
                        }
                    },
                    None => None,
                };
                let black_clock: Option<ClockText> = match &params.clocks {
                    Some(c) => {
                        let idx: usize = if i >= 2 {
                            (i - 2) / 2
                        } else {
                            0
                        };
                        if idx < c.black.len() {
                            Some(c.black[idx].clone())
                        } else {
                            None
                        }
                    },
                    None => None,
                };
                let checked = check_bb(rf.check.to_square(&rf.board, rf.turn));
                let highlighted = highlight_uci(rf.last_move);
                let delay: u16 = match rf.delay {
                    Some(d) => d,
                    None => params.delay,
                };
                frames.push(
                    RenderFrame {
                        board: rf.board,
                        highlighted,
                        checked,
                        delay: Some(delay),
                        glyph: rf.glyph,
                        white_clock,
                        black_clock,
                    },
                );
                i = i + 1;
            }
        }
        let comment = match params.comment {
            Some(c) => if c.len() >= 1 {
                Some(c)
            } else {
                None
            },
            None => Some(default_comment()),
        };
        Render {
            theme,
            font: themes.font(),
            state: RenderState::Preamble,
            buffer,
            comment,
            bars,
            orientation: params.orientation,
            coordinates: params.coordinates,
            frames,
            kork: params.kork,
            clock_widths: (0, 0),
        }
    }
}

/// A clock region rendered into a fresh buffer and placed at the right
/// edge of the bar starting at row `bar_top`.
pub open spec fn spec_blit_clock(
    canvas: Seq<u8>,
    atlas: Seq<u8>,
    raster: Seq<GlyphPixel>,
    min_width: int,
    ascent: int,
    bar_top: int,
) -> Seq<u8> {
    let rw = spec_clock_region_width(raster, min_width);
    let cb = spec_render_clock_region(
        Seq::new(43200, |i: int| 0u8),
        atlas,
        raster,
        min_width,
        ascent,
    );
    spec_blit_rect(canvas, 720, 720 - rw - 20, bar_top, cb, rw, 0, 0, rw, 60)
}

/// The bytes of one clock sub-region block (control, descriptor and
/// image data), the buffer it leaves behind, and the region width.
pub open spec fn spec_clock_block(
    data: Seq<u8>,
    atlas: Seq<u8>,
    raster: Seq<GlyphPixel>,
    min_width: int,
    ascent: int,
    bar_top: u16,
) -> (Seq<u8>, Seq<u8>, int) {
    let rw = spec_clock_region_width(raster, min_width);
    let b = spec_render_clock_region(data, atlas, raster, min_width, ascent);
    let bytes = spec_graphic_control(true, None, 0) + spec_image_desc(
        (720 - rw - 20) as u16,
        bar_top,
        rw as u16,
        60,
    ) + lzw_image_block_of(b.take(60 * rw));
    (bytes, b, rw)
}

/// The board part of one frame step: the diff region composited over
/// the buffer prefix, and its control, descriptor and data blocks.
pub open spec fn spec_board_block(
    data: Seq<u8>,
    atlas: Seq<u8>,
    ext_idx: u8,
    font: FontGlyphs,
    o: Orientation,
    coordinates: Coordinates,
    bars_some: bool,
    prev: RenderFrame,
    f: RenderFrame,
) -> (Seq<u8>, Seq<u8>) {
    let diff = RenderFrame::spec_diff(prev, f);
    let b3 = spec_render_region(data, atlas, ext_idx, font, o, coordinates, true, diff, f, 0);
    let bb = spec_bbox(diff, o);
    let w = (bb.2 - bb.0) * 90;
    let h = (bb.3 - bb.1) * 90;
    let top = bb.1 * 90 + (if bars_some {
        60int
    } else {
        0int
    });
    let delay: u16 = match f.delay {
        Some(d) => d,
        None => 0,
    };
    let bytes = spec_graphic_control(true, Some(atlas[660]), delay) + spec_image_desc(
        (bb.0 * 90) as u16,
        top as u16,
        w as u16,
        h as u16,
    ) + lzw_image_block_of(b3.take(w * h));
    (bytes, b3)
}

/// Emit the board part of one frame step.
fn emit_board_block(
    out: &mut Vec<u8>,
    buffer: &mut Vec<u8>,
    theme: &Theme,
    font: &FontGlyphs,
    orientation: Orientation,
    coordinates: Coordinates,
    bars_some: bool,
    prev: &RenderFrame,
    f: &RenderFrame,
)
    requires
        old(buffer)@.len() >= 518400,
        spec_encodable(old(buffer)@),
    ensures
        final(buffer)@.len() == old(buffer)@.len(),
        spec_encodable(final(buffer)@),
        final(buffer)@ == spec_board_block(
            old(buffer)@,
            theme.spec_atlas(),
            theme.spec_extended_idx(),
            *font,
            orientation,
            coordinates,
            bars_some,
            *prev,
            *f,
        ).1,
        final(out)@ == old(out)@ + spec_board_block(
            old(buffer)@,
            theme.spec_atlas(),
            theme.spec_extended_idx(),
            *font,
            orientation,
            coordinates,
            bars_some,
            *prev,
            *f,
        ).0,
{
    let diff = f.diff(prev);
    let delay: u16 = match f.delay {
        Some(d) => d,
        None => 0,
    };
    push_graphic_control(out, true, Some(theme.transparent_color()), delay);
    let ((left, y), (w, h)) = render_diff(
        buffer,
        theme,
        orientation,
        coordinates,
        true,
        diff,
        f,
        font,
        0,
    );
    let top: usize = y + if bars_some {
        60
    } else {
        0
    };
    push_image_desc(out, left as u16, top as u16, w as u16, h as u16);
    proof {
        assert(w * h <= 518400) by (nonlinear_arith)
            requires
                0 <= w <= 720,
                0 <= h <= 720,
        ;
    }
    let pixels = copy_prefix(buffer, w * h);
    push_image_data(out, &pixels);
    proof {
        assert(out@ =~= old(out)@ + spec_board_block(
            old(buffer)@,
            theme.spec_atlas(),
            theme.spec_extended_idx(),
            *font,
            orientation,
            coordinates,
            bars_some,
            *prev,
            *f,
        ).0);
    }
}

/// Emit one clock sub-region block: render the region into the buffer
/// prefix and append its control, descriptor and data blocks.
fn emit_clock_block(
    out: &mut Vec<u8>,
    buffer: &mut Vec<u8>,
    theme: &Theme,
    font: &FontGlyphs,
    ct: &ClockText,
    min_width: usize,
    bar_top: u16,
) -> (rw: usize)
    requires
        old(buffer)@.len() >= 42000,
        min_width <= 700,
        spec_encodable(old(buffer)@),
    ensures
        rw == spec_clock_region_width(ct.raster@, min_width as int),
        1 <= rw <= 700,
        final(buffer)@.len() == old(buffer)@.len(),
        spec_encodable(final(buffer)@),
        final(buffer)@ == spec_clock_block(
            old(buffer)@,
            theme.spec_atlas(),
            ct.raster@,
            min_width as int,
            font.clock_ascent as int,
            bar_top,
        ).1,
        final(out)@ == old(out)@ + spec_clock_block(
            old(buffer)@,
            theme.spec_atlas(),
            ct.raster@,
            min_width as int,
            font.clock_ascent as int,
            bar_top,
        ).0,
{
    push_graphic_control(out, true, None, 0);
    let rw = render_clock_region(buffer, theme, font, ct, min_width);
    push_image_desc(out, (720 - rw - 20) as u16, bar_top, rw as u16, 60);
    let pixels = copy_prefix(buffer, 60 * rw);
    push_image_data(out, &pixels);
    proof {
        assert(out@ =~= old(out)@ + spec_clock_block(
            old(buffer)@,
            theme.spec_atlas(),
            ct.raster@,
            min_width as int,
            font.clock_ascent as int,
            bar_top,
        ).0);
    }
    rw
}

impl<'a> Render<'a> {
    fn step_preamble(&mut self) -> (out: Vec<u8>)
        requires
            old(self).wf(),
            old(self).state == RenderState::Preamble,
        ensures
            final(self).wf(),
            final(self).spec_frozen() == old(self).spec_frozen(),
            out@ == old(self).spec_chunk_at(old(self).spec_mstate()),
            final(self).spec_mstate() == old(self).spec_next_at(old(self).spec_mstate()),
    {
        let ghost m0 = old(self).spec_mstate();
        let mut out: Vec<u8> = Vec::new();
        let ch: usize = if self.bars.is_some() {
            840
        } else {
            720
        };
        push_header(&mut out);
        push_screen_desc(&mut out, 720, ch as u16, self.theme.color_table_config());
        push_color_table(&mut out, self.theme.global_color_table());
        push_loop_forever(&mut out);
        match &self.comment {
            Some(c) => push_comment(&mut out, c),
            None => {},
        }
        if let Some(pb) = &self.bars {
            let top_name = match self.orientation {
                Orientation::White => &pb.black,
                Orientation::Black => &pb.white,
            };
            render_bar(&mut self.buffer, 0, self.theme, self.font, top_name);
            let btm_name = match self.orientation {
                Orientation::White => &pb.white,
                Orientation::Black => &pb.black,
            };
            render_bar(&mut self.buffer, 780, self.theme, self.font, btm_name);
            if let Some(ct) = frame_clock(&self.frames[0], self.orientation, true) {
                let mut cb = filled_vec(43200, 0);
                let rw = render_clock_region(&mut cb, self.theme, self.font, ct, self.clock_widths.0);
                blit_rect(&mut self.buffer, 720, 720 - rw - 20, 0, &cb, rw, 0, 0, rw, 60);
                self.clock_widths.0 = rw;
            }
            if let Some(ct) = frame_clock(&self.frames[0], self.orientation, false) {
                let mut cb = filled_vec(43200, 0);
                let rw = render_clock_region(&mut cb, self.theme, self.font, ct, self.clock_widths.1);
                blit_rect(&mut self.buffer, 720, 720 - rw - 20, 780, &cb, rw, 0, 0, rw, 60);
                self.clock_widths.1 = rw;
            }
        }
        if let Some(d) = self.frames[0].delay {
            push_graphic_control(&mut out, false, None, d);
        }
        let y_base: usize = if self.bars.is_some() {
            60
        } else {
            0
        };
        render_diff(
            &mut self.buffer,
            self.theme,
            self.orientation,
            self.coordinates,
            false,
            FULL_BOARD,
            &self.frames[0],
            self.font,
            y_base,
        );
        push_image_desc(&mut out, 0, 0, 720, ch as u16);
        push_image_data(&mut out, &self.buffer);
        self.state = RenderState::Frame(0);
        proof {
            assert(self.buffer@ =~= old(self).spec_preamble_buffer(m0));
            assert(out@ =~= old(self).spec_preamble_chunk(m0));
            assert(self.spec_mstate() =~= old(self).spec_next_at(m0));
        }
        out
    }

    #[verifier::rlimit(100)]
    fn step_frame(&mut self, k: usize) -> (out: Vec<u8>)
        requires
            old(self).wf(),
            old(self).state == RenderState::Frame(k),
            k + 1 < old(self).frames@.len(),
        ensures
            final(self).wf(),
            final(self).spec_frozen() == old(self).spec_frozen(),
            out@ == old(self).spec_chunk_at(old(self).spec_mstate()),
            final(self).spec_mstate() == old(self).spec_next_at(old(self).spec_mstate()),
    {
        let ghost m0 = old(self).spec_mstate();
        let n: usize = self.frames.len();
        proof {
            assert(k + 1 < n);
        }
        let mut out: Vec<u8> = Vec::new();
        if self.bars.is_some() {
            let prev_top: Option<u32> = match frame_clock(&self.frames[k], self.orientation, true) {
                Some(c) => Some(c.centis),
                None => None,
            };
            if let Some(ct) = frame_clock(&self.frames[k + 1], self.orientation, true) {
                let changed = match prev_top {
                    Some(p) => p != ct.centis,
                    None => true,
                };
                if changed {
                    let rw = emit_clock_block(
                        &mut out,
                        &mut self.buffer,
                        self.theme,
                        self.font,
                        ct,
                        self.clock_widths.0,
                        0,
                    );
                    self.clock_widths.0 = rw;
                }
            }
            let prev_btm: Option<u32> = match frame_clock(&self.frames[k], self.orientation, false) {
                Some(c) => Some(c.centis),
                None => None,
            };
            if let Some(ct) = frame_clock(&self.frames[k + 1], self.orientation, false) {
                let changed = match prev_btm {
                    Some(p) => p != ct.centis,
                    None => true,
                };
                if changed {
                    push_graphic_control(&mut out, true, None, 0);
                    let rw = render_clock_region(
                        &mut self.buffer,
                        self.theme,
                        self.font,
                        ct,
                        self.clock_widths.1,
                    );
                    push_image_desc(&mut out, (720 - rw - 20) as u16, 780, rw as u16, 60);
                    let pixels = copy_prefix(&self.buffer, 60 * rw);
                    push_image_data(&mut out, &pixels);
                    self.clock_widths.1 = rw;
                }
            }
        }
        let bars_some = self.bars.is_some();
        emit_board_block(
            &mut out,
            &mut self.buffer,
            self.theme,
            self.font,
            self.orientation,
            self.coordinates,
            bars_some,
            &self.frames[k],
            &self.frames[k + 1],
        );
        self.state = RenderState::Frame(k + 1);
        proof {
            let step = old(self).spec_frame_step(m0, k as int);
            assert(self.buffer@ =~= step.1);
            assert(out@ =~= step.0);
            assert(self.spec_mstate() =~= old(self).spec_next_at(m0));
        }
        out
    }

    fn step_tail(&mut self, k: usize) -> (out: Vec<u8>)
        requires
            old(self).wf(),
            old(self).state == RenderState::Frame(k),
            !(k + 1 < old(self).frames@.len()),
        ensures
            final(self).wf(),
            final(self).spec_frozen() == old(self).spec_frozen(),
            out@ == old(self).spec_chunk_at(old(self).spec_mstate()),
            final(self).spec_mstate() == old(self).spec_next_at(old(self).spec_mstate()),
    {
        let ghost m0 = old(self).spec_mstate();
        let mut out: Vec<u8> = Vec::new();
        if self.kork {
            push_graphic_control(&mut out, true, Some(self.theme.transparent_color()), 1);
            let ch: usize = if self.bars.is_some() {
                840
            } else {
                720
            };
            push_image_desc(&mut out, 0, 0, 720, ch as u16);
            let pixels = filled_vec(ch * 720, self.theme.bar_color());
            push_image_data(&mut out, &pixels);
        }
        push_trailer(&mut out);
        self.state = RenderState::Complete;
        proof {
            assert(out@ =~= old(self).spec_tail_chunk());
            assert(self.spec_mstate() =~= old(self).spec_next_at(m0));
        }
        out
    }

    /// Produce the next chunk of GIF bytes, or nothing once complete.
    /// Each call performs exactly one state transition; the chunks'
    /// concatenation is the complete GIF stream.
    pub fn next_chunk(&mut self) -> (r: Option<Vec<u8>>)
        requires
            old(self).wf(),
        ensures
            final(self).wf(),
            final(self).spec_frozen() == old(self).spec_frozen(),
            old(self).spec_done() ==> r is None && final(self).spec_mstate() == old(
                self,
            ).spec_mstate(),
            !old(self).spec_done() ==> {
                &&& r matches Some(v) && v@ == old(self).spec_chunk_at(old(self).spec_mstate())
                &&& final(self).spec_mstate() == old(self).spec_next_at(old(self).spec_mstate())
                &&& final(self).spec_measure(final(self).spec_mstate()) < old(self).spec_measure(
                    old(self).spec_mstate(),
                )
            },
    {
        proof {
            if old(self).state != RenderState::Complete {
                old(self).lemma_measure_decreases(old(self).spec_mstate());
            }
        }
        match self.state {
            RenderState::Preamble => Some(self.step_preamble()),
            RenderState::Frame(k) => {
                let frame_count = self.frames.len();
                proof {
                    assert(k < frame_count);
                }
                if k + 1 < frame_count {
                    Some(self.step_frame(k))
                } else {
                    Some(self.step_tail(k))
                }
            },
            RenderState::Complete => None,
        }
    }

    /// Drive the producer to completion, concatenating every chunk:
    /// the full GIF stream for the render's remaining states.
    pub fn render_all(&mut self) -> (r: Vec<u8>)
        requires
            old(self).wf(),
        ensures
            final(self).wf(),
            final(self).spec_done(),
            r@ == old(self).spec_output_at(old(self).spec_mstate()),
            old(self).spec_mstate().state == RenderState::Preamble ==> r@.len() > 6 && r@.subrange(
                0,
                6,
            ) == spec_header() && r@.last() == 0x3B,
    {
        let ghost m_init = old(self).spec_mstate();
        let mut out: Vec<u8> = Vec::new();
        loop
            invariant_except_break
                self.wf(),
                self.spec_frozen() == old(self).spec_frozen(),
                old(self).spec_output_at(m_init) == out@ + self.spec_output_at(self.spec_mstate()),
            ensures
                self.wf(),
                self.spec_done(),
                self.spec_frozen() == old(self).spec_frozen(),
                out@ == old(self).spec_output_at(m_init),
            decreases self.spec_measure(self.spec_mstate()),
        {
            let ghost pre = *self;
            let ghost m_pre = self.spec_mstate();
            let r = self.next_chunk();
            match r {
                Some(mut v) => {
                    proof {
                        lemma_output_congruence(pre, *self, self.spec_mstate());
                    }
                    out.append(&mut v);
                },
                None => {
                    proof {
                        assert(self.spec_output_at(self.spec_mstate()) =~= Seq::<u8>::empty());
                        assert(out@ =~= out@ + self.spec_output_at(self.spec_mstate()));
                    }
                    break;
                },
            }
        }
        proof {
            if m_init.state == RenderState::Preamble {
                lemma_output_brackets(*old(self), m_init);
            }
        }
        out
    }
}

/// Two player names reading the same and covering the same pixels.
pub open spec fn spec_name_matches(a: PlayerName, b: PlayerName) -> bool {
    a.name@ == b.name@ && a.head@ == b.head@ && a.tail@ == b.tail@
}

/// Two optional bar pairs showing the same names.
pub open spec fn spec_bars_match(a: Option<PlayerBars>, b: Option<PlayerBars>) -> bool {
    match (a, b) {
        (Some(x), Some(y)) => spec_name_matches(x.white, y.white) && spec_name_matches(
            x.black,
            y.black,
        ),
        (None, None) => true,
        _ => false,
    }
}

/// Two frame lists describing the same pictures.
pub open spec fn spec_frames_match(a: Seq<RenderFrame>, b: Seq<RenderFrame>) -> bool {
    a.len() == b.len() && forall|i: int|
        0 <= i < a.len() ==> spec_frame_matches(#[trigger] a[i], #[trigger] b[i])
}

/// Two font packages holding the same rasterized glyphs and metrics.
pub open spec fn spec_font_matches(a: FontGlyphs, b: FontGlyphs) -> bool {
    &&& forall|i: int| 0 <= i < 8 ==> #[trigger] a.file_labels@[i]@ == b.file_labels@[i]@
    &&& forall|i: int| 0 <= i < 8 ==> #[trigger] a.rank_labels@[i]@ == b.rank_labels@[i]@
    &&& forall|i: int| 0 <= i < 6 ==> #[trigger] a.badge_labels@[i]@ == b.badge_labels@[i]@
    &&& a.coord_ascent == b.coord_ascent
    &&& a.coord_descent == b.coord_descent
    &&& a.clock_ascent == b.clock_ascent
    &&& a.bar_ascent == b.bar_ascent
}

/// Two optional comments holding the same bytes.
pub open spec fn spec_comment_matches(a: Option<Vec<u8>>, b: Option<Vec<u8>>) -> bool {
    match (a, b) {
        (Some(x), Some(y)) => x@ == y@,
        (None, None) => true,
        _ => false,
    }
}

impl<'a> Render<'a> {
    /// Two renders built from inputs that read the same, pixel for
    /// pixel and byte for byte, whether or not they share allocations.
    pub closed spec fn spec_context_matches(self, other: Render) -> bool {
        &&& self.theme.spec_atlas() == other.theme.spec_atlas()
        &&& self.theme.spec_table() == other.theme.spec_table()
        &&& self.theme.spec_table_len() == other.theme.spec_table_len()
        &&& self.theme.spec_extended_idx() == other.theme.spec_extended_idx()
        &&& spec_font_matches(*self.font, *other.font)
        &&& spec_comment_matches(self.comment, other.comment)
        &&& spec_bars_match(self.bars, other.bars)
        &&& self.orientation == other.orientation
        &&& self.coordinates == other.coordinates
        &&& spec_frames_match(self.frames@, other.frames@)
        &&& self.kork == other.kork
    }
}

proof fn lemma_squares_congruence(
    data: Seq<u8>,
    atlas: Seq<u8>,
    ext_idx: u8,
    fa: FontGlyphs,
    fb: FontGlyphs,
    o: Orientation,
    coordinates: Coordinates,
    diff: u64,
    ra: RenderFrame,
    rb: RenderFrame,
    xm: int,
    ym: int,
    w: int,
    y_base: int,
    sq: int,
)
    requires
        spec_font_matches(fa, fb),
        spec_frame_matches(ra, rb),
    ensures
        spec_render_squares(data, atlas, ext_idx, fa, o, coordinates, diff, ra, xm, ym, w, y_base, sq)
            == spec_render_squares(
            data,
            atlas,
            ext_idx,
            fb,
            o,
            coordinates,
            diff,
            rb,
            xm,
            ym,
            w,
            y_base,
            sq,
        ),
    decreases 64 - sq,
{
    if 0 <= sq < 64 {
        assert(spec_render_square(data, atlas, ext_idx, fa, o, coordinates, ra, xm, ym, w, y_base, sq)
            == spec_render_square(
            data,
            atlas,
            ext_idx,
            fb,
            o,
            coordinates,
            rb,
            xm,
            ym,
            w,
            y_base,
            sq,
        ));
        let d = if bb_has(diff, sq as u64) {
            spec_render_square(data, atlas, ext_idx, fa, o, coordinates, ra, xm, ym, w, y_base, sq)
        } else {
            data
        };
        lemma_squares_congruence(
            d,
            atlas,
            ext_idx,
            fa,
            fb,
            o,
            coordinates,
            diff,
            ra,
            rb,
            xm,
            ym,
            w,
            y_base,
            sq + 1,
        );
    }
}

proof fn lemma_region_congruence(
    data: Seq<u8>,
    atlas: Seq<u8>,
    ext_idx: u8,
    fa: FontGlyphs,
    fb: FontGlyphs,
    o: Orientation,
    coordinates: Coordinates,
    prev_some: bool,
    diff: u64,
    ra: RenderFrame,
    rb: RenderFrame,
    y_base: int,
)
    requires
        spec_font_matches(fa, fb),
        spec_frame_matches(ra, rb),
    ensures
        spec_render_region(data, atlas, ext_idx, fa, o, coordinates, prev_some, diff, ra, y_base)
            == spec_render_region(
            data,
            atlas,
            ext_idx,
            fb,
            o,
            coordinates,
            prev_some,
            diff,
            rb,
            y_base,
        ),
{
    let b = spec_bbox(diff, o);
    let w = (b.2 - b.0) * 90;
    let h = (b.3 - b.1) * 90;
    let d0 = if prev_some {
        spec_fill_rect(data, w, 0, y_base, w, h, atlas[660])
    } else {
        data
    };
    lemma_squares_congruence(
        d0,
        atlas,
        ext_idx,
        fa,
        fb,
        o,
        coordinates,
        diff,
        ra,
        rb,
        b.0,
        b.1,
        w,
        y_base,
        0,
    );
}

proof fn lemma_preamble_congruence(a: Render, b: Render, m: MachineState)
    requires
        a.spec_context_matches(b),
        spec_frame_matches(a.frames@[0], b.frames@[0]),
    ensures
        a.spec_preamble_buffer(m) == b.spec_preamble_buffer(m),
        a.spec_preamble_chunk(m) == b.spec_preamble_chunk(m),
        a.spec_preamble_widths(m) == b.spec_preamble_widths(m),
{
    let fa = a.frames@[0];
    let fb = b.frames@[0];
    let atlas = a.theme.spec_atlas();
    match (a.bars, b.bars) {
        (Some(pa), Some(pb)) => {
            let ta = if a.orientation == Orientation::White {
                pa.black
            } else {
                pa.white
            };
            let tb = if b.orientation == Orientation::White {
                pb.black
            } else {
                pb.white
            };
            let ua = if a.orientation == Orientation::White {
                pa.white
            } else {
                pa.black
            };
            let ub = if b.orientation == Orientation::White {
                pb.white
            } else {
                pb.black
            };
            let b1a = spec_render_bar(m.buffer, atlas, 0, ta, a.font.bar_ascent as int);
            let b1b = spec_render_bar(m.buffer, atlas, 0, tb, b.font.bar_ascent as int);
            assert(b1a == b1b);
            let b2a = spec_render_bar(b1a, atlas, 780, ua, a.font.bar_ascent as int);
            let b2b = spec_render_bar(b1b, atlas, 780, ub, b.font.bar_ascent as int);
            assert(b2a == b2b);
            let b3a = match spec_frame_clock(fa, a.orientation, true) {
                Some(ct) => spec_blit_clock(
                    b2a,
                    atlas,
                    ct.raster@,
                    m.widths.0,
                    a.font.clock_ascent as int,
                    0,
                ),
                None => b2a,
            };
            let b3b = match spec_frame_clock(fb, b.orientation, true) {
                Some(ct) => spec_blit_clock(
                    b2b,
                    atlas,
                    ct.raster@,
                    m.widths.0,
                    b.font.clock_ascent as int,
                    0,
                ),
                None => b2b,
            };
            assert(b3a == b3b);
            let b4a = match spec_frame_clock(fa, a.orientation, false) {
                Some(ct) => spec_blit_clock(
                    b3a,
                    atlas,
                    ct.raster@,
                    m.widths.1,
                    a.font.clock_ascent as int,
                    780,
                ),
                None => b3a,
            };
            let b4b = match spec_frame_clock(fb, b.orientation, false) {
                Some(ct) => spec_blit_clock(
                    b3b,
                    atlas,
                    ct.raster@,
                    m.widths.1,
                    b.font.clock_ascent as int,
                    780,
                ),
                None => b3b,
            };
            assert(b4a == b4b);
            lemma_region_congruence(
                b4a,
                atlas,
                a.theme.spec_extended_idx(),
                *a.font,
                *b.font,
                a.orientation,
                a.coordinates,
                false,
                FULL_BOARD,
                fa,
                fb,
                60,
            );
        },
        (None, None) => {
            lemma_region_congruence(
                m.buffer,
                atlas,
                a.theme.spec_extended_idx(),
                *a.font,
                *b.font,
                a.orientation,
                a.coordinates,
                false,
                FULL_BOARD,
                fa,
                fb,
                0,
            );
        },
        _ => {},
    }
}

proof fn lemma_frame_congruence(a: Render, b: Render, m: MachineState, k: int)
    requires
        a.spec_context_matches(b),
        0 <= k,
        k + 1 < a.frames@.len(),
    ensures
        a.spec_frame_step(m, k) == b.spec_frame_step(m, k),
{
    let pa = a.frames@[k];
    let pb = b.frames@[k];
    let fa = a.frames@[k + 1];
    let fb = b.frames@[k + 1];
    assert(spec_frame_matches(pa, pb));
    assert(spec_frame_matches(fa, fb));
    assert(RenderFrame::spec_diff(pa, fa) == RenderFrame::spec_diff(pb, fb));
    assert(a.spec_clock_changed(k, true) == b.spec_clock_changed(k, true));
    assert(a.spec_clock_changed(k, false) == b.spec_clock_changed(k, false));
    let atlas = a.theme.spec_atlas();
    let (bytes0a, b1a, w0a) = if a.spec_clock_changed(k, true) {
        spec_clock_block(
            m.buffer,
            atlas,
            spec_frame_clock(fa, a.orientation, true)->0.raster@,
            m.widths.0,
            a.font.clock_ascent as int,
            0,
        )
    } else {
        (Seq::<u8>::empty(), m.buffer, m.widths.0)
    };
    let (bytes1a, b2a, w1a) = if a.spec_clock_changed(k, false) {
        spec_clock_block(
            b1a,
            atlas,
            spec_frame_clock(fa, a.orientation, false)->0.raster@,
            m.widths.1,
            a.font.clock_ascent as int,
            780,
        )
    } else {
        (Seq::<u8>::empty(), b1a, m.widths.1)
    };
    lemma_region_congruence(
        b2a,
        atlas,
        a.theme.spec_extended_idx(),
        *a.font,
        *b.font,
        a.orientation,
        a.coordinates,
        true,
        RenderFrame::spec_diff(pa, fa),
        fa,
        fb,
        0,
    );
}

proof fn lemma_chunk_congruence(a: Render, b: Render, m: MachineState)
    requires
        a.spec_context_matches(b),
    ensures
        a.spec_chunk_at(m) == b.spec_chunk_at(m),
        a.spec_next_at(m) == b.spec_next_at(m),
        a.spec_measure(m) == b.spec_measure(m),
{
    match m.state {
        RenderState::Preamble => {
            if a.frames@.len() >= 1 {
                assert(spec_frame_matches(a.frames@[0], b.frames@[0]));
            } else {
                assert(a.frames@ =~= b.frames@);
            }
            lemma_preamble_congruence(a, b, m);
        },
        RenderState::Frame(k) => {
            if k + 1 < a.frames@.len() && k + 1 <= usize::MAX {
                lemma_frame_congruence(a, b, m, k as int);
            }
            assert(a.spec_tail_chunk() == b.spec_tail_chunk());
        },
        RenderState::Complete => {},
    }
}

proof fn lemma_output_matches(a: Render, b: Render, m: MachineState)
    requires
        a.spec_context_matches(b),
    ensures
        a.spec_output_at(m) == b.spec_output_at(m),
    decreases a.spec_measure(m),
{
    if m.state != RenderState::Complete {
        lemma_chunk_congruence(a, b, m);
        a.lemma_measure_decreases(m);
        lemma_output_matches(a, b, a.spec_next_at(m));
    }
}

/// Rendering is deterministic: two renderers whose inputs read the
/// same — pixel for pixel and byte for byte, whether or not they
/// share allocations — produce byte-identical output from the same
/// machine state. There are no timestamps and no nondeterministic
/// ordering.
pub proof fn lemma_output_deterministic(a: Render, b: Render, m: MachineState)
    requires
        a.spec_frozen().0 == b.spec_frozen().0,
        spec_font_matches(a.spec_frozen().1, b.spec_frozen().1),
        spec_comment_matches(a.spec_frozen().2, b.spec_frozen().2),
        spec_bars_match(a.spec_frozen().3, b.spec_frozen().3),
        a.spec_frozen().4 == b.spec_frozen().4,
        a.spec_frozen().5 == b.spec_frozen().5,
        spec_frames_match(a.spec_frozen().6, b.spec_frozen().6),
        a.spec_frozen().7 == b.spec_frozen().7,
    ensures
        a.spec_output_at(m) == b.spec_output_at(m),
{
    assert(a.spec_context_matches(b));
    lemma_output_matches(a, b, m);
}

/// The output depends only on the frozen context, never on which copy
/// of the renderer holds it.
proof fn lemma_output_congruence(a: Render, b: Render, m: MachineState)
    requires
        a.spec_frozen() == b.spec_frozen(),
    ensures
        a.spec_output_at(m) == b.spec_output_at(m),
    decreases a.spec_measure(m),
{
    assert(a.frames@ == b.frames@);
    assert(*a.theme == *b.theme);
    assert(*a.font == *b.font);
    assert(a.comment == b.comment);
    assert(a.bars == b.bars);
    assert(a.orientation == b.orientation);
    assert(a.coordinates == b.coordinates);
    assert(a.kork == b.kork);
    if m.state != RenderState::Complete {
        assert(a.spec_chunk_at(m) == b.spec_chunk_at(m));
        assert(a.spec_next_at(m) == b.spec_next_at(m));
        a.lemma_measure_decreases(m);
        assert(a.spec_measure(m) == b.spec_measure(m));
        lemma_output_congruence(a, b, a.spec_next_at(m));
    }
}

/// From any unfinished state the remaining output is non-empty and
/// ends with the trailer byte.
proof fn lemma_output_ends(r: Render, m: MachineState)
    requires
        r.wf_frames(),
        m.state != RenderState::Complete,
        forall|k: usize| m.state == RenderState::Frame(k) ==> k < r.spec_frame_count(),
    ensures
        r.spec_output_at(m).len() > 0,
        r.spec_output_at(m).last() == 0x3B,
    decreases r.spec_measure(m),
{
    let next = r.spec_next_at(m);
    r.lemma_measure_decreases(m);
    match m.state {
        RenderState::Preamble => {
            lemma_output_ends(r, next);
            assert(r.spec_output_at(m).last() == r.spec_output_at(next).last());
        },
        RenderState::Frame(k) => {
            if k + 1 < r.spec_frame_count() && k + 1 <= usize::MAX {
                lemma_output_ends(r, next);
                assert(r.spec_output_at(m).last() == r.spec_output_at(next).last());
            } else {
                assert(r.spec_output_at(next) =~= Seq::<u8>::empty());
                assert(r.spec_output_at(m) =~= r.spec_chunk_at(m));
                assert(r.spec_tail_chunk().last() == 0x3B);
            }
        },
        RenderState::Complete => {},
    }
}

/// Starting from the preamble, the whole output opens with the GIF
/// header and closes with the trailer byte.
proof fn lemma_output_brackets(r: Render, m: MachineState)
    requires
        r.wf_frames(),
        m.state == RenderState::Preamble,
    ensures
        r.spec_output_at(m).len() > 6,
        r.spec_output_at(m).subrange(0, 6) == spec_header(),
        r.spec_output_at(m).last() == 0x3B,
{
    lemma_output_ends(r, m);
    let chunk = r.spec_chunk_at(m);
    let rest = r.spec_output_at(r.spec_next_at(m));
    assert(r.spec_output_at(m) == chunk + rest);
    assert(chunk.subrange(0, 6) =~= spec_header());
    assert(r.spec_output_at(m).subrange(0, 6) =~= spec_header());
}

} // verus!
