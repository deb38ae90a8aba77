use chess_gif::api::Orientation;
use chess_gif::render::{
    diff_bounding_box, get_square_background_color, render_bar, render_clock_region,
    str_starts_with, PlayerBars,
};
use chess_gif::text::{ClockText, FontGlyphs, GlyphPixel, PlayerName};
use chess_gif::theme::{Theme, ATLAS_PIXELS};

fn test_theme() -> Theme {
    let mut pixels = vec![0u8; ATLAS_PIXELS];
    pixels[0] = 1;
    pixels[90] = 2;
    pixels[180] = 3;
    pixels[270] = 4;
    pixels[360] = 5;
    pixels[420] = 6;
    pixels[480] = 7;
    pixels[540] = 8;
    pixels[600] = 9;
    pixels[660] = 10;
    Theme::from_parts((0u8..36).collect(), pixels).expect("theme")
}

fn test_font() -> FontGlyphs {
    FontGlyphs {
        file_labels: std::array::from_fn(|_| Vec::new()),
        rank_labels: std::array::from_fn(|_| Vec::new()),
        badge_labels: std::array::from_fn(|_| Vec::new()),
        coord_ascent: 20,
        coord_descent: -5,
        clock_ascent: 24,
        bar_ascent: 28,
    }
}

fn px(x: i32, y: i32, coverage: u8) -> GlyphPixel {
    GlyphPixel { x, y, coverage }
}

#[test]
fn test_bounding_box_two_squares() {
    // a1 (square 0) and c2 (square 10), seen from White: columns 0 and
    // 2, rows 7 and 6.
    let diff = (1u64 << 0) | (1u64 << 10);
    assert_eq!(diff_bounding_box(diff, Orientation::White), (0, 6, 3, 8));
    // Mirrored for Black: columns 7 and 5, rows 0 and 1.
    assert_eq!(diff_bounding_box(diff, Orientation::Black), (5, 0, 8, 2));
}

#[test]
fn test_bounding_box_single_and_empty() {
    assert_eq!(
        diff_bounding_box(1u64 << 28, Orientation::White),
        (4, 4, 5, 5)
    );
    assert_eq!(diff_bounding_box(0, Orientation::White), (0, 0, 0, 0));
    assert_eq!(diff_bounding_box(u64::MAX, Orientation::White), (0, 0, 8, 8));
}

#[test]
fn test_str_starts_with() {
    assert!(str_starts_with("GM Carlsen", "GM "));
    assert!(!str_starts_with("Carlsen", "GM "));
    assert!(!str_starts_with("GM", "GM "));
    assert!(str_starts_with("", ""));
}

#[test]
fn test_player_bars_from() {
    let named = PlayerName {
        name: "GM A".to_string(),
        head: Vec::new(),
        tail: Vec::new(),
    };
    let bars = PlayerBars::from(Some(named), None, false).expect("bars");
    assert_eq!(bars.white.name, "GM A");
    assert_eq!(bars.black.name, "");

    assert!(PlayerBars::from(None, None, false).is_none());
    let empty = PlayerName::empty();
    assert!(PlayerBars::from(Some(empty), None, false).is_none());
    assert!(PlayerBars::from(None, None, true).is_some());
}

#[test]
fn test_square_background_color() {
    let t = test_theme();
    assert_eq!(get_square_background_color(false, false, &t), 1);
    assert_eq!(get_square_background_color(false, true, &t), 2);
    assert_eq!(get_square_background_color(true, false, &t), 3);
    assert_eq!(get_square_background_color(true, true, &t), 4);
}

#[test]
fn test_render_clock_region_width_and_pixels() {
    let t = test_theme();
    let f = test_font();
    let clock = ClockText {
        centis: 6_000,
        raster: vec![px(0, 0, 255), px(49, 0, 255)],
    };
    let mut buffer = vec![0u8; 42_000];
    let w = render_clock_region(&mut buffer, &t, &f, &clock, 0);
    assert_eq!(w, 50);
    // Bar background everywhere in the region except the glyph pixels.
    assert_eq!(buffer[0], 5);
    // Text lands at row 10 + clock ascent, full coverage paints the
    // text color.
    let row = (10 + 24) as usize;
    assert_eq!(buffer[row * 50 + 0], 6);
    assert_eq!(buffer[row * 50 + 49], 6);
}

#[test]
fn test_render_clock_region_never_shrinks() {
    let t = test_theme();
    let f = test_font();
    let wide = ClockText { centis: 0, raster: vec![px(59, 0, 255)] };
    let narrow = ClockText { centis: 1, raster: vec![px(19, 0, 255)] };
    let mut buffer = vec![0u8; 42_000];
    let w1 = render_clock_region(&mut buffer, &t, &f, &wide, 0);
    assert_eq!(w1, 60);
    let w2 = render_clock_region(&mut buffer, &t, &f, &narrow, w1);
    assert_eq!(w2, 60);
}

#[test]
fn test_render_bar_colors() {
    let t = test_theme();
    let f = test_font();
    let mut buffer = vec![0u8; 840 * 720];
    // A titled name: head pixels take gold, tail pixels take the
    // default text color; a half-covered tail pixel takes the medium
    // shade.
    let name = PlayerName {
        name: "GM X".to_string(),
        head: vec![px(0, 0, 255)],
        tail: vec![px(20, 0, 255), px(21, 0, 50)],
    };
    render_bar(&mut buffer, 0, &t, &f, &name);
    // Bar background fill.
    assert_eq!(buffer[0], 5);
    assert_eq!(buffer[59 * 720 + 719], 5);
    let row = (10 + 28) as usize;
    assert_eq!(buffer[row * 720 + 10], 7); // gold head
    assert_eq!(buffer[row * 720 + 30], 6); // text tail
    assert_eq!(buffer[row * 720 + 31], 9); // medium shade
    // Rows outside the bar are untouched.
    assert_eq!(buffer[60 * 720], 0);
}

#[test]
fn test_render_bar_bot_color() {
    let t = test_theme();
    let f = test_font();
    let mut buffer = vec![0u8; 840 * 720];
    let name = PlayerName {
        name: "BOT Z".to_string(),
        head: vec![px(0, 0, 255), px(1, 0, 50)],
        tail: Vec::new(),
    };
    render_bar(&mut buffer, 780, &t, &f, &name);
    let row = 780 + (10 + 28) as usize;
    assert_eq!(buffer[row * 720 + 10], 8); // bot color
    // Half coverage keeps the bot color (no medium shade for titled
    // colors).
    assert_eq!(buffer[row * 720 + 11], 8);
}
