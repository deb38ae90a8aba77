//! Sprite-sheet themes: the pixel atlas, the derived global color
//! table, and the catalog of one theme per board-style and piece-set
//! pair.

use vstd::prelude::*;

use crate::api::MoveGlyph;
use crate::assets::{BoardTheme, ByBoardTheme, ByPieceSet, PieceSet};
use crate::board::{Piece, Role};
use crate::gif::{spec_encodable, valid_table_len};
use crate::text::FontGlyphs;

verus! {

/// Edge length of one sprite cell, in pixels.
pub const SQUARE: usize = 90;

/// Width and height of the sprite atlas (8 cells of 90 pixels).
pub const ATLAS_WIDTH: usize = 720;

/// Pixel count of the whole atlas.
pub const ATLAS_PIXELS: usize = 518400;

/// Height of one player bar, in pixels.
pub const BAR_HEIGHT: usize = 60;

/// Width of the color swatches in the atlas metadata row.
pub const COLOR_WIDTH: usize = 60;

/// The key selecting one sprite cell of the atlas.
pub struct SpriteKey {
    pub piece: Option<Piece>,
    pub dark_square: bool,
    pub highlight: bool,
    pub check: bool,
}

impl SpriteKey {
    /// Column of the cell: white pieces in the right half, highlighted
    /// squares in the second pair of columns, dark squares odd.
    pub open spec fn spec_x(self) -> int {
        (if self.piece is Some && self.piece->0.color == crate::board::Color::White {
            4int
        } else {
            0int
        }) + (if self.highlight {
            2int
        } else {
            0int
        }) + (if self.dark_square {
            1int
        } else {
            0int
        })
    }

    /// Row of the cell: the metadata row for empty squares, one row per
    /// role, and the last row for a checked king.
    pub open spec fn spec_y(self) -> int {
        match self.piece {
            Some(piece) => if self.check && piece.role == Role::King {
                7int
            } else {
                piece.role.spec_row() as int
            },
            None => 0int,
        }
    }

    pub fn x(&self) -> (r: usize)
        ensures
            r == self.spec_x(),
            r < 8,
    {
        let white: usize = match self.piece {
            Some(p) => match p.color {
                crate::board::Color::White => 4,
                crate::board::Color::Black => 0,
            },
            None => 0,
        };
        let hl: usize = if self.highlight {
            2
        } else {
            0
        };
        let dark: usize = if self.dark_square {
            1
        } else {
            0
        };
        white + hl + dark
    }

    pub fn y(&self) -> (r: usize)
        ensures
            r == self.spec_y(),
            r < 8,
    {
        match self.piece {
            Some(piece) => {
                if self.check && matches!(piece.role, Role::King) {
                    7
                } else {
                    piece.role.row() as usize
                }
            },
            None => 0,
        }
    }
}

/// The smallest valid color-table length holding at least `n` colors
/// (for `n` up to 256).
pub open spec fn spec_pad_table_len(n: int) -> int {
    if n <= 2 {
        2
    } else if n <= 4 {
        4
    } else if n <= 8 {
        8
    } else if n <= 16 {
        16
    } else if n <= 32 {
        32
    } else if n <= 64 {
        64
    } else if n <= 128 {
        128
    } else {
        256
    }
}

fn pad_table_len(n: usize) -> (r: usize)
    requires
        n <= 256,
    ensures
        r == spec_pad_table_len(n as int),
        valid_table_len(r as int),
        r >= n,
        r <= 256,
{
    if n <= 2 {
        2
    } else if n <= 4 {
        4
    } else if n <= 8 {
        8
    } else if n <= 16 {
        16
    } else if n <= 32 {
        32
    } else if n <= 64 {
        64
    } else if n <= 128 {
        128
    } else {
        256
    }
}

/// The red, green and blue bytes appended to every palette: first the
/// badge text color (white), then one badge background color per
/// annotation glyph, in glyph-index order.
pub open spec fn spec_extension_colors() -> Seq<u8> {
    seq![
        0xffu8, 0xffu8, 0xffu8,
        0x22u8, 0xacu8, 0x38u8,
        0xe6u8, 0x9du8, 0x00u8,
        0x16u8, 0x80u8, 0xb2u8,
        0xdfu8, 0x53u8, 0x53u8,
        0xeau8, 0x45u8, 0xd8u8,
        0x56u8, 0xb4u8, 0xe9u8,
    ]
}

/// Whether a decoded sheet can become a theme: a full 720 by 720
/// atlas that never touches the last palette slot, and a well-formed
/// palette small enough to take the seven extension colors.
pub open spec fn spec_sheet_accepted(colors: Seq<u8>, pixels: Seq<u8>) -> bool {
    &&& pixels.len() == ATLAS_PIXELS
    &&& spec_encodable(pixels)
    &&& colors.len() % 3 == 0
    &&& 3 <= colors.len()
    &&& colors.len() / 3 <= 248
}

/// One theme: the sprite atlas and the global color table derived from
/// its palette.
pub struct Theme {
    atlas: Vec<u8>,
    table: Vec<u8>,
    table_len: usize,
    extended_idx: u8,
}

impl Theme {
    #[verifier::type_invariant]
    spec fn inv(self) -> bool {
        &&& self.atlas@.len() == ATLAS_PIXELS
        &&& spec_encodable(self.atlas@)
        &&& valid_table_len(self.table_len as int)
        &&& self.table@.len() == self.table_len * 3
        &&& self.extended_idx as int + 7 <= self.table_len
        &&& self.extended_idx <= 248
        &&& self.table_len <= 256
    }

    /// The atlas pixels, row-major, one palette index per pixel.
    pub closed spec fn spec_atlas(self) -> Seq<u8> {
        self.atlas@
    }

    /// The global color table bytes.
    pub closed spec fn spec_table(self) -> Seq<u8> {
        self.table@
    }

    /// The number of colors in the global color table.
    pub closed spec fn spec_table_len(self) -> int {
        self.table_len as int
    }

    /// The palette index of the first extension color.
    pub closed spec fn spec_extended_idx(self) -> u8 {
        self.extended_idx
    }

    /// Build a theme from a decoded sheet: `colors` is the sheet's
    /// palette (three bytes per color), `pixels` its full atlas. The
    /// palette is extended with the badge colors and padded with black
    /// to the next valid table length. Rejects a sheet whose atlas is
    /// not exactly 720 by 720 pixels or touches the last palette slot
    /// (the image-data encoder cannot carry pixel value 255), or whose
    /// palette is malformed or too large to extend.
    pub fn from_parts(colors: Vec<u8>, pixels: Vec<u8>) -> (r: Option<Theme>)
        ensures
            r is Some <==> spec_sheet_accepted(colors@, pixels@),
            r matches Some(t) ==> {
                &&& t.spec_atlas() == pixels@
                &&& t.spec_extended_idx() == colors@.len() / 3
                &&& t.spec_table_len() == spec_pad_table_len(colors@.len() as int / 3 + 7)
                &&& t.spec_table() == colors@ + spec_extension_colors() + Seq::new(
                    (t.spec_table_len() * 3 - (colors@.len() + 21)) as nat,
                    |i: int| 0u8,
                )
            },
    {
        if pixels.len() != ATLAS_PIXELS {
            return None;
        }
        if colors.len() % 3 != 0 || colors.len() < 3 || colors.len() / 3 > 248 {
            return None;
        }
        let mut i: usize = 0;
        while i < pixels.len()
            invariant
                i <= pixels@.len(),
                forall|j: int| 0 <= j < i ==> pixels@[j] < 255,
            decreases pixels@.len() - i,
        {
            if pixels[i] == 255 {
                return None;
            }
            i = i + 1;
        }
        let base: usize = colors.len() / 3;
        let extended_idx: u8 = base as u8;
        let table_len: usize = pad_table_len(base + 7);
        let mut table = colors;
        let ghost colors_view = table@;
        table.push(0xff);
        table.push(0xff);
        table.push(0xff);
        table.push(0x22);
        table.push(0xac);
        table.push(0x38);
        table.push(0xe6);
        table.push(0x9d);
        table.push(0x00);
        table.push(0x16);
        table.push(0x80);
        table.push(0xb2);
        table.push(0xdf);
        table.push(0x53);
        table.push(0x53);
        table.push(0xea);
        table.push(0x45);
        table.push(0xd8);
        table.push(0x56);
        table.push(0xb4);
        table.push(0xe9);
        proof {
            assert(table@ =~= colors_view + spec_extension_colors());
        }
        let ghost extended_view = table@;
        proof {
            assert(table@.len() <= table_len * 3);
        }
        while table.len() < table_len * 3
            invariant
                table@.len() >= extended_view.len(),
                table@.len() <= table_len * 3,
                table@ == extended_view + Seq::new(
                    (table@.len() - extended_view.len()) as nat,
                    |i: int| 0u8,
                ),
                table_len * 3 <= 768,
            decreases table_len * 3 - table@.len(),
        {
            table.push(0);
            proof {
                assert(table@ =~= extended_view + Seq::new(
                    (table@.len() - extended_view.len()) as nat,
                    |i: int| 0u8,
                ));
            }
        }
        let t = Theme { atlas: pixels, table, table_len, extended_idx };
        Some(t)
    }

    /// Decode a bundled sprite sheet and build its theme. Fails
    /// exactly on a sheet the decoder rejects or whose shape
    /// `from_parts` refuses; on success the theme is built from the
    /// decoded palette and atlas.
    pub fn new(sprite_data: &Vec<u8>) -> (r: Option<Theme>)
        ensures
            r is Some <==> (sheet_of(sprite_data@) matches Some(s) && spec_sheet_accepted(
                s.0,
                s.1,
            )),
            r matches Some(t) ==> {
                let s = sheet_of(sprite_data@)->0;
                &&& t.spec_atlas() == s.1
                &&& t.spec_extended_idx() == s.0.len() / 3
                &&& t.spec_table_len() == spec_pad_table_len(s.0.len() as int / 3 + 7)
                &&& t.spec_table() == s.0 + spec_extension_colors() + Seq::new(
                    (t.spec_table_len() * 3 - (s.0.len() + 21)) as nat,
                    |i: int| 0u8,
                )
            },
    {
        match decode_sheet(sprite_data) {
            Some((colors, pixels)) => Theme::from_parts(colors, pixels),
            None => None,
        }
    }

    /// The number of colors in the emitted global color table: always a
    /// power of two, at most 256, and at least the number of colors the
    /// renderer references (the sheet's palette of `spec_extended_idx`
    /// colors plus the seven extension colors).
    pub fn color_table_config(&self) -> (r: usize)
        ensures
            r == self.spec_table_len(),
            valid_table_len(r as int),
            r <= 256,
            r >= self.spec_extended_idx() + 7,
    {
        proof {
            use_type_invariant(self);
        }
        self.table_len
    }

    pub fn global_color_table(&self) -> (r: &Vec<u8>)
        ensures
            r@ == self.spec_table(),
            r@.len() == self.spec_table_len() * 3,
    {
        proof {
            use_type_invariant(self);
        }
        &self.table
    }

    /// The atlas pixels; none of them touches the last palette slot.
    pub fn atlas(&self) -> (r: &Vec<u8>)
        ensures
            r@ == self.spec_atlas(),
            r@.len() == ATLAS_PIXELS,
            spec_encodable(r@),
    {
        proof {
            use_type_invariant(self);
        }
        &self.atlas
    }

    /// Palette index of the bar background color.
    pub fn bar_color(&self) -> (r: u8)
        ensures
            r == self.spec_atlas()[360],
            r < 255,
    {
        proof {
            use_type_invariant(self);
        }
        self.atlas[SQUARE * 4]
    }

    /// Palette index of the default text color.
    pub fn text_color(&self) -> (r: u8)
        ensures
            r == self.spec_atlas()[420],
            r < 255,
    {
        proof {
            use_type_invariant(self);
        }
        self.atlas[SQUARE * 4 + COLOR_WIDTH]
    }

    /// Palette index of the titled-player text color.
    pub fn gold_color(&self) -> (r: u8)
        ensures
            r == self.spec_atlas()[480],
            r < 255,
    {
        proof {
            use_type_invariant(self);
        }
        self.atlas[SQUARE * 4 + COLOR_WIDTH * 2]
    }

    /// Palette index of the bot text color.
    pub fn bot_color(&self) -> (r: u8)
        ensures
            r == self.spec_atlas()[540],
            r < 255,
    {
        proof {
            use_type_invariant(self);
        }
        self.atlas[SQUARE * 4 + COLOR_WIDTH * 3]
    }

    /// Palette index of the medium shade used for anti-aliased text.
    pub fn med_text_color(&self) -> (r: u8)
        ensures
            r == self.spec_atlas()[600],
            r < 255,
    {
        proof {
            use_type_invariant(self);
        }
        self.atlas[SQUARE * 4 + COLOR_WIDTH * 4]
    }

    /// Palette index of the transparent color.
    pub fn transparent_color(&self) -> (r: u8)
        ensures
            r == self.spec_atlas()[660],
            r < 255,
    {
        proof {
            use_type_invariant(self);
        }
        self.atlas[SQUARE * 4 + COLOR_WIDTH * 5]
    }

    /// Palette index of the badge text color.
    pub fn glyph_text_color(&self) -> (r: u8)
        ensures
            r == self.spec_extended_idx(),
            r < 255,
    {
        proof {
            use_type_invariant(self);
        }
        self.extended_idx
    }

    /// Palette index of the badge background color for `glyph`.
    pub fn move_color(&self, glyph: MoveGlyph) -> (r: u8)
        ensures
            r == self.spec_extended_idx() + glyph.spec_index(),
            r < 255,
    {
        proof {
            use_type_invariant(self);
        }
        self.extended_idx + glyph.index()
    }

    /// Edge length of one square, in pixels.
    pub fn square(&self) -> (r: usize)
        ensures
            r == SQUARE,
    {
        SQUARE
    }

    /// Width of the canvas, in pixels.
    pub fn width(&self) -> (r: usize)
        ensures
            r == ATLAS_WIDTH,
    {
        SQUARE * 8
    }

    /// Palette index of the plain dark square color.
    pub fn square_dark_color(&self) -> (r: u8)
        ensures
            r == self.spec_atlas()[90],
            r < 255,
    {
        proof {
            use_type_invariant(self);
        }
        self.atlas[SQUARE]
    }

    /// Palette index of the plain light square color.
    pub fn square_light_color(&self) -> (r: u8)
        ensures
            r == self.spec_atlas()[0],
            r < 255,
    {
        proof {
            use_type_invariant(self);
        }
        self.atlas[0]
    }

    /// Palette index of the highlighted dark square color.
    pub fn square_highlighted_dark_color(&self) -> (r: u8)
        ensures
            r == self.spec_atlas()[270],
            r < 255,
    {
        proof {
            use_type_invariant(self);
        }
        self.atlas[SQUARE * 3]
    }

    /// Palette index of the highlighted light square color.
    pub fn square_highlighted_light_color(&self) -> (r: u8)
        ensures
            r == self.spec_atlas()[180],
            r < 255,
    {
        proof {
            use_type_invariant(self);
        }
        self.atlas[SQUARE * 2]
    }

    /// Height of one player bar, in pixels.
    pub fn bar_height(&self) -> (r: usize)
        ensures
            r == BAR_HEIGHT,
    {
        BAR_HEIGHT
    }

    /// Height of the canvas: the board, plus two bars when present.
    pub fn height(&self, bars: bool) -> (r: usize)
        ensures
            r == if bars {
                ATLAS_WIDTH + 2 * BAR_HEIGHT
            } else {
                ATLAS_WIDTH as int
            },
    {
        if bars {
            self.width() + 2 * self.bar_height()
        } else {
            self.width()
        }
    }
}

/// What gift's decoder yields for a byte stream: the global color
/// table bytes and the first frame's pixel indices, or nothing when
/// the stream is rejected or carries no global color table. Decoding
/// is a function of the bytes alone.
pub uninterp spec fn sheet_of(data: Seq<u8>) -> Option<(Seq<u8>, Seq<u8>)>;

/// Relies on gift's `Decoder`: reads a GIF stream's preamble and first
/// frame, returning the global color table bytes and the frame's pixel
/// indices, or nothing when the decoder rejects the stream or it has
/// no global color table; malformed input comes back as an error, not
/// a fault, and the result depends on the bytes alone.
#[verifier::external_body]
fn decode_sheet(data: &Vec<u8>) -> (r: Option<(Vec<u8>, Vec<u8>)>)
    ensures
        match r {
            Some(cp) => sheet_of(data@) == Some((cp.0@, cp.1@)),
            None => sheet_of(data@) is None,
        },
{
    let mut frames = gift::Decoder::new(std::io::Cursor::new(data.as_slice())).into_frames();
    let preamble = match frames.preamble() {
        Ok(Some(p)) => p,
        _ => return None,
    };
    let frame = match frames.next() {
        Some(Ok(f)) => f,
        _ => return None,
    };
    let colors = match preamble.global_color_table {
        Some(t) => t.colors().to_vec(),
        None => return None,
    };
    Some((colors, frame.image_data.data().to_vec()))
}

/// The catalog: one theme per board-style and piece-set pair, plus the
/// shared rasterized font data.
pub struct Themes {
    map: ByBoardTheme<ByPieceSet<Theme>>,
    font: FontGlyphs,
}

impl Themes {
    pub closed spec fn spec_map(self) -> ByBoardTheme<ByPieceSet<Theme>> {
        self.map
    }

    pub closed spec fn spec_font(self) -> FontGlyphs {
        self.font
    }

    /// Build the catalog from fully constructed themes and font data.
    pub fn new(map: ByBoardTheme<ByPieceSet<Theme>>, font: FontGlyphs) -> (r: Themes)
        ensures
            r.spec_map() == map,
            r.spec_font() == font,
    {
        Themes { map, font }
    }

    pub fn font(&self) -> (r: &FontGlyphs)
        ensures
            *r == self.spec_font(),
    {
        &self.font
    }

    pub fn get(&self, board: BoardTheme, pieces: PieceSet) -> (r: &Theme)
        ensures
            *r == self.spec_map().spec_get(board).spec_get(pieces),
    {
        self.map.by_board_theme(board).by_piece_set(pieces)
    }
}

} // verus!
