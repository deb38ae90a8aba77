use chess_gif::api::MoveGlyph;
use chess_gif::board::{Color, Piece, Role};
use chess_gif::theme::{SpriteKey, Theme, ATLAS_PIXELS};

fn test_atlas() -> Vec<u8> {
    let mut pixels = vec![0u8; ATLAS_PIXELS];
    // Metadata row swatches: square colors and UI colors.
    pixels[0] = 1; // light square
    pixels[90] = 2; // dark square
    pixels[180] = 3; // highlighted light
    pixels[270] = 4; // highlighted dark
    pixels[360] = 5; // bar background
    pixels[420] = 6; // text
    pixels[480] = 7; // gold
    pixels[540] = 8; // bot
    pixels[600] = 9; // medium text
    pixels[660] = 10; // transparent
    pixels
}

fn test_colors() -> Vec<u8> {
    // Twelve palette entries, three bytes each.
    (0u8..36).collect()
}

#[test]
fn test_from_parts_builds_theme() {
    let t = Theme::from_parts(test_colors(), test_atlas()).expect("theme");
    // Twelve base colors plus seven extension colors pad up to 32.
    assert_eq!(t.color_table_config(), 32);
    assert_eq!(t.global_color_table().len(), 32 * 3);
    assert_eq!(t.glyph_text_color(), 12);
    assert_eq!(t.move_color(MoveGlyph::Good), 13);
    assert_eq!(t.move_color(MoveGlyph::Dubious), 18);
    assert_eq!(t.bar_color(), 5);
    assert_eq!(t.text_color(), 6);
    assert_eq!(t.gold_color(), 7);
    assert_eq!(t.bot_color(), 8);
    assert_eq!(t.med_text_color(), 9);
    assert_eq!(t.transparent_color(), 10);
    assert_eq!(t.square_light_color(), 1);
    assert_eq!(t.square_dark_color(), 2);
    assert_eq!(t.square_highlighted_light_color(), 3);
    assert_eq!(t.square_highlighted_dark_color(), 4);
    assert_eq!(t.square(), 90);
    assert_eq!(t.width(), 720);
    assert_eq!(t.bar_height(), 60);
    assert_eq!(t.height(false), 720);
    assert_eq!(t.height(true), 840);
}

#[test]
fn test_from_parts_table_contents() {
    let t = Theme::from_parts(test_colors(), test_atlas()).expect("theme");
    let table = t.global_color_table();
    assert_eq!(&table[..36], test_colors().as_slice());
    // The badge text color comes right after the base palette.
    assert_eq!(&table[36..39], &[0xFF, 0xFF, 0xFF]);
    // The first badge background color.
    assert_eq!(&table[39..42], &[0x22, 0xAC, 0x38]);
    // Zero padding to the full table.
    assert!(table[57..].iter().all(|&b| b == 0));
}

#[test]
fn test_from_parts_rejects_bad_input() {
    assert!(Theme::from_parts(test_colors(), vec![0u8; 100]).is_none());
    assert!(Theme::from_parts(vec![0u8; 35], test_atlas()).is_none());
    assert!(Theme::from_parts(Vec::new(), test_atlas()).is_none());
    // 249 colors leave no room for the seven extension colors below
    // the encoder's pixel-value ceiling.
    assert!(Theme::from_parts(vec![0u8; 249 * 3], test_atlas()).is_none());
    // 248 still can.
    assert!(Theme::from_parts(vec![0u8; 248 * 3], test_atlas()).is_some());
    // An atlas touching the last palette slot is rejected: the
    // image-data encoder cannot carry pixel value 255.
    let mut bad = test_atlas();
    bad[1000] = 255;
    assert!(Theme::from_parts(test_colors(), bad).is_none());
}

#[test]
fn test_color_table_power_of_two() {
    for base in [1usize, 4, 25, 100, 121, 248] {
        let t = Theme::from_parts(vec![0u8; base * 3], test_atlas()).expect("theme");
        let n = t.color_table_config();
        assert!(n.is_power_of_two());
        assert!(n <= 256);
        assert!(n >= base + 7);
    }
}

#[test]
fn test_theme_new_decodes_sheet() {
    // Round-trip: encode a synthetic sprite sheet with the block
    // encoder, then build a theme from it.
    let atlas = test_atlas();
    let mut bytes = Vec::new();
    chess_gif::gif::push_header(&mut bytes);
    chess_gif::gif::push_screen_desc(&mut bytes, 720, 720, 16);
    for i in 0..48 {
        bytes.push(i as u8);
    }
    chess_gif::gif::push_image_desc(&mut bytes, 0, 0, 720, 720);
    chess_gif::gif::push_image_data(&mut bytes, &atlas);
    chess_gif::gif::push_trailer(&mut bytes);

    let t = Theme::new(&bytes).expect("decoded theme");
    assert_eq!(t.glyph_text_color(), 16);
    assert_eq!(t.bar_color(), 5);
    assert_eq!(t.color_table_config(), 32);
}

#[test]
fn test_theme_new_rejects_garbage() {
    assert!(Theme::new(&vec![1, 2, 3, 4]).is_none());
}

#[test]
fn test_sprite_key_xy() {
    let wp = SpriteKey {
        piece: Some(Piece { color: Color::White, role: Role::Pawn }),
        dark_square: true,
        highlight: true,
        check: false,
    };
    assert_eq!(wp.x(), 7);
    assert_eq!(wp.y(), 1);

    let empty = SpriteKey { piece: None, dark_square: false, highlight: false, check: false };
    assert_eq!(empty.x(), 0);
    assert_eq!(empty.y(), 0);

    let checked_king = SpriteKey {
        piece: Some(Piece { color: Color::Black, role: Role::King }),
        dark_square: false,
        highlight: false,
        check: true,
    };
    assert_eq!(checked_king.x(), 0);
    assert_eq!(checked_king.y(), 7);

    let queen = SpriteKey {
        piece: Some(Piece { color: Color::Black, role: Role::Queen }),
        dark_square: true,
        highlight: false,
        check: false,
    };
    assert_eq!(queen.x(), 1);
    assert_eq!(queen.y(), 5);
}

#[test]
fn test_badge_colors_match_glyph_colors() {
    let t = Theme::from_parts(test_colors(), test_atlas()).expect("theme");
    let table = t.global_color_table();
    let glyphs = [
        MoveGlyph::Good,
        MoveGlyph::Mistake,
        MoveGlyph::Brilliant,
        MoveGlyph::Blunder,
        MoveGlyph::Interesting,
        MoveGlyph::Dubious,
    ];
    for g in glyphs {
        let idx = t.move_color(g) as usize;
        let (r, gr, b) = g.color();
        assert_eq!(&table[idx * 3..idx * 3 + 3], &[r, gr, b]);
    }
}

#[test]
fn test_glyph_labels() {
    assert_eq!(MoveGlyph::Good.label(), "!");
    assert_eq!(MoveGlyph::Mistake.label(), "?");
    assert_eq!(MoveGlyph::Brilliant.label(), "!!");
    assert_eq!(MoveGlyph::Blunder.label(), "??");
    assert_eq!(MoveGlyph::Interesting.label(), "!?");
    assert_eq!(MoveGlyph::Dubious.label(), "?!");
}
