use chess_gif::api::{
    CheckSquare, Clocks, Coordinates, MoveGlyph, Orientation, RequestBody, RequestFrame,
    RequestParams,
};
use chess_gif::assets::{BoardTheme, ByBoardTheme, ByPieceSet, PieceSet};
use chess_gif::board::{Board, Color, MoveCoords};
use chess_gif::render::Render;
use chess_gif::text::{ClockText, FontGlyphs, GlyphPixel};
use chess_gif::theme::{Theme, Themes, ATLAS_PIXELS};

fn make_theme() -> Theme {
    let mut pixels = vec![0u8; ATLAS_PIXELS];
    pixels[0] = 1;
    pixels[90] = 2;
    pixels[180] = 3;
    pixels[270] = 4;
    pixels[360] = 5;
    pixels[420] = 6;
    pixels[480] = 7;
    pixels[540] = 8;
    pixels[600] = 9;
    pixels[660] = 10;
    Theme::from_parts((0u8..36).collect(), pixels).expect("theme")
}

fn make_font() -> FontGlyphs {
    FontGlyphs {
        file_labels: std::array::from_fn(|_| Vec::new()),
        rank_labels: std::array::from_fn(|_| Vec::new()),
        badge_labels: std::array::from_fn(|_| vec![GlyphPixel { x: 0, y: 0, coverage: 255 }]),
        coord_ascent: 20,
        coord_descent: -5,
        clock_ascent: 24,
        bar_ascent: 28,
    }
}

fn make_themes() -> Themes {
    let map = ByBoardTheme::new(|_b| ByPieceSet::new(|_p| make_theme()));
    Themes::new(map, make_font())
}

fn startpos() -> Board {
    Board {
        white: 0x0000_0000_0000_FFFF,
        black: 0xFFFF_0000_0000_0000,
        pawns: 0x00FF_0000_0000_FF00,
        knights: 0x4200_0000_0000_0042,
        bishops: 0x2400_0000_0000_0024,
        rooks: 0x8100_0000_0000_0081,
        queens: 0x0800_0000_0000_0008,
        kings: 0x1000_0000_0000_0010,
    }
}

/// The start position after moving one piece from `from` to `to`
/// (no capture), flipping the matching role set.
fn after_move(from: u8, to: u8, role_board: fn(&mut Board) -> &mut u64) -> Board {
    let mut b = startpos();
    let m = (1u64 << from) | (1u64 << to);
    *role_board(&mut b) ^= m;
    if b.white & (1u64 << from) != 0 {
        b.white ^= m;
    } else {
        b.black ^= m;
    }
    b
}

fn image_params() -> RequestParams {
    RequestParams {
        white: None,
        black: None,
        comment: None,
        board: startpos(),
        turn: Color::White,
        last_move: None,
        check: CheckSquare::No,
        orientation: Orientation::White,
        coordinates: Coordinates::No,
        theme: BoardTheme::Brown,
        piece: PieceSet::Cburnett,
    }
}

fn frame_for(board: Board, last_move: Option<MoveCoords>) -> RequestFrame {
    RequestFrame {
        board,
        turn: Color::White,
        delay: None,
        last_move,
        check: CheckSquare::No,
        glyph: None,
    }
}

fn animation_body(kork: bool, clocks: Option<Clocks>) -> RequestBody {
    let f1 = frame_for(startpos(), None);
    let b2 = after_move(6, 21, |b| &mut b.knights);
    let f2 = frame_for(b2, Some(MoveCoords::Normal { from: 6, to: 21 }));
    let mut b3 = b2;
    let m = (1u64 << 57) | (1u64 << 42);
    b3.knights ^= m;
    b3.black ^= m;
    let f3 = frame_for(b3, Some(MoveCoords::Normal { from: 57, to: 42 }));
    RequestBody {
        white: None,
        black: None,
        comment: None,
        frames: vec![f1, f2, f3],
        clocks,
        orientation: Orientation::White,
        coordinates: Coordinates::No,
        delay: 50,
        theme: BoardTheme::Brown,
        piece: PieceSet::Cburnett,
        kork,
    }
}

fn decode_frames(bytes: &[u8]) -> (gift::block::Preamble, Vec<gift::block::Frame>) {
    let mut frames = gift::Decoder::new(std::io::Cursor::new(bytes)).into_frames();
    let preamble = frames.preamble().expect("decode").expect("preamble");
    let mut out = Vec::new();
    for f in frames {
        out.push(f.expect("frame decodes"));
    }
    (preamble, out)
}

#[test]
fn test_single_frame_full_board() {
    let themes = make_themes();
    let mut render = Render::new_image(&themes, image_params());
    let out = render.render_all();
    assert_eq!(&out[..6], b"GIF89a");
    assert_eq!(*out.last().unwrap(), 0x3B);

    let (preamble, frames) = decode_frames(&out);
    // No player bars: the canvas is exactly the board.
    assert_eq!(preamble.screen_width(), 720);
    assert_eq!(preamble.screen_height(), 720);
    // Exactly one image, sized to the full board.
    assert_eq!(frames.len(), 1);
    assert_eq!(frames[0].image_desc.width(), 720);
    assert_eq!(frames[0].image_desc.height(), 720);
    assert_eq!(frames[0].image_desc.left(), 0);
    assert_eq!(frames[0].image_desc.top(), 0);
}

#[test]
fn test_chunked_production_then_none() {
    let themes = make_themes();
    let mut render = Render::new_image(&themes, image_params());
    let mut total = 0;
    let mut chunks = 0;
    while let Some(chunk) = render.next_chunk() {
        total += chunk.len();
        chunks += 1;
    }
    assert!(chunks >= 2);
    assert!(total > 0);
    assert!(render.next_chunk().is_none());
}

#[test]
fn test_animation_with_kork_has_extra_frame() {
    let themes = make_themes();
    let mut render = Render::new_animation(&themes, animation_body(true, None));
    let out = render.render_all();
    let (preamble, frames) = decode_frames(&out);
    assert_eq!(preamble.screen_height(), 720);
    // Three frames plus the defensive trailing frame.
    assert_eq!(frames.len(), 4);
    // The trailing frame covers the whole canvas.
    let last = frames.last().unwrap();
    assert_eq!(last.image_desc.width(), 720);
    assert_eq!(last.image_desc.height(), 720);
    assert_eq!(last.image_desc.left(), 0);
    assert_eq!(last.image_desc.top(), 0);
    // It is opaque bar-background color throughout.
    assert!(last.image_data.data().iter().all(|&p| p == 5));
}

#[test]
fn test_animation_without_kork() {
    let themes = make_themes();
    let mut render = Render::new_animation(&themes, animation_body(false, None));
    let out = render.render_all();
    let (_, frames) = decode_frames(&out);
    assert_eq!(frames.len(), 3);
    // The second frame covers only the moved knight's bounding box:
    // g1 to f3 spans columns f..g and rows 1..3 from White's side.
    assert_eq!(frames[1].image_desc.width(), 180);
    assert_eq!(frames[1].image_desc.height(), 270);
    assert_eq!(frames[1].image_desc.left(), 450);
    assert_eq!(frames[1].image_desc.top(), 450);
}

#[test]
fn test_rendering_is_deterministic() {
    let themes = make_themes();
    let mut r1 = Render::new_animation(&themes, animation_body(true, None));
    let out1 = r1.render_all();
    let mut r2 = Render::new_animation(&themes, animation_body(true, None));
    let out2 = r2.render_all();
    assert_eq!(out1, out2);

    let mut r3 = Render::new_image(&themes, image_params());
    let out3 = r3.render_all();
    let mut r4 = Render::new_image(&themes, image_params());
    let out4 = r4.render_all();
    assert_eq!(out3, out4);
}

#[test]
fn test_clock_updates_emit_extra_blocks() {
    let clock = |centis: u32| ClockText {
        centis,
        raster: vec![GlyphPixel { x: 0, y: 0, coverage: 255 }, GlyphPixel { x: 29, y: 0, coverage: 255 }],
    };
    // Four plies; white's clock list reaches a second value at ply 3.
    let base = animation_body(false, None);
    let mut frames = base.frames;
    let last_board = frames[2].board;
    frames.push(frame_for(last_board, None));
    let body = RequestBody {
        frames,
        clocks: Some(Clocks {
            white: vec![clock(6_000), clock(3_000)],
            black: vec![clock(6_000)],
        }),
        ..base_request()
    };
    let themes = make_themes();
    let mut render = Render::new_animation(&themes, body);
    let out = render.render_all();
    let (preamble, frames) = decode_frames(&out);
    // Clocks imply bars, so the canvas grows by both bar heights.
    assert_eq!(preamble.screen_height(), 840);
    // One preamble image, three diff images, and one clock re-draw
    // when white's clock first changes at ply 3.
    assert_eq!(frames.len(), 5);
    // The clock block is a small region inside the bottom bar.
    let clock_frame = &frames[3];
    assert_eq!(clock_frame.image_desc.height(), 60);
    assert_eq!(clock_frame.image_desc.top(), 780);
    assert_eq!(clock_frame.image_desc.width(), 30);
    assert_eq!(clock_frame.image_desc.left(), (720 - 30 - 20) as u16);
}

fn base_request() -> RequestBody {
    RequestBody {
        white: None,
        black: None,
        comment: None,
        frames: Vec::new(),
        clocks: None,
        orientation: Orientation::White,
        coordinates: Coordinates::No,
        delay: 50,
        theme: BoardTheme::Brown,
        piece: PieceSet::Cburnett,
        kork: false,
    }
}

#[test]
fn test_comment_block_present_when_given() {
    let themes = make_themes();
    let mut params = image_params();
    params.comment = Some(b"example".to_vec());
    let mut render = Render::new_image(&themes, params);
    let out = render.render_all();
    let needle: &[u8] = &[0x21, 0xFE, 0x07, b'e', b'x', b'a', b'm', b'p', b'l', b'e', 0x00];
    assert!(out.windows(needle.len()).any(|w| w == needle));
}

#[test]
fn test_comment_defaults_to_provenance() {
    // With no caller comment the preamble carries the fixed
    // provenance string; an explicitly empty comment omits the block.
    let themes = make_themes();
    let mut render = Render::new_image(&themes, image_params());
    let out = render.render_all();
    let needle: &[u8] = &[
        0x21, 0xFE, 0x09, b'c', b'h', b'e', b's', b's', b'_', b'g', b'i', b'f', 0x00,
    ];
    assert!(out.windows(needle.len()).any(|w| w == needle));

    let mut params = image_params();
    params.comment = Some(Vec::new());
    let mut render2 = Render::new_image(&themes, params);
    let out2 = render2.render_all();
    assert!(!out2.windows(2).any(|w| w == [0x21, 0xFE]));
}

#[test]
fn test_empty_diff_zero_sized_block() {
    // Two identical consecutive frames: the second frame degenerates
    // to a zero-sized update block at the origin.
    let themes = make_themes();
    let f = frame_for(startpos(), None);
    let f_again = frame_for(startpos(), None);
    let body = RequestBody {
        frames: vec![f, f_again],
        ..base_request()
    };
    let mut render = Render::new_animation(&themes, body);
    let out = render.render_all();
    let zero_desc: &[u8] = &[0x2C, 0, 0, 0, 0, 0, 0, 0, 0, 0];
    assert!(out.windows(zero_desc.len()).any(|w| w == zero_desc));
    assert_eq!(*out.last().unwrap(), 0x3B);
}

#[test]
fn test_glyph_badge_draws_on_destination() {
    let themes = make_themes();
    let b2 = after_move(6, 21, |b| &mut b.knights);
    let mut f2 = frame_for(b2, Some(MoveCoords::Normal { from: 6, to: 21 }));
    f2.glyph = Some(MoveGlyph::Good);
    let body = RequestBody {
        frames: vec![frame_for(startpos(), None), f2],
        ..base_request()
    };
    let mut render = Render::new_animation(&themes, body);
    let out = render.render_all();
    let (_, frames) = decode_frames(&out);
    assert_eq!(frames.len(), 2);
    // The badge background color for the first glyph is the extended
    // index plus one: 12 base colors, badge text at 12, Good at 13.
    assert!(frames[1].image_data.data().iter().any(|&p| p == 13));
    // The badge text color appears too.
    assert!(frames[1].image_data.data().iter().any(|&p| p == 12));
}
