//! Request-level vocabulary: board orientation, coordinate labels,
//! move-annotation glyphs, and the check-square selector.

use vstd::prelude::*;

use crate::assets::{BoardTheme, PieceSet};
use crate::board::{Board, Color, MoveCoords};
use crate::text::{ClockText, PlayerName};

verus! {

/// Which side of the board faces the viewer.
#[derive(Clone, Copy, Debug, PartialEq, Eq, Structural)]
pub enum Orientation {
    White,
    Black,
}

impl Orientation {
    pub open spec fn spec_fold<T>(self, white: T, black: T) -> T {
        match self {
            Orientation::White => white,
            Orientation::Black => black,
        }
    }

    /// Pick `white` or `black` according to the orientation.
    #[verifier::when_used_as_spec(spec_fold)]
    pub fn fold<T>(self, white: T, black: T) -> (r: T)
        ensures
            r == self.spec_fold(white, black),
    {
        match self {
            Orientation::White => white,
            Orientation::Black => black,
        }
    }

    /// Device column of `sq` (0 at the viewer's left).
    pub open spec fn spec_x(self, sq: u64) -> int {
        match self {
            Orientation::White => (sq % 8) as int,
            Orientation::Black => 7 - (sq % 8),
        }
    }

    /// Device row of `sq` (0 at the top of the board).
    pub open spec fn spec_y(self, sq: u64) -> int {
        match self {
            Orientation::White => 7 - (sq / 8),
            Orientation::Black => (sq / 8) as int,
        }
    }

    pub fn x(self, square: u8) -> (r: usize)
        requires
            square < 64,
        ensures
            r == self.spec_x(square as u64),
            r < 8,
    {
        let file = (square % 8) as usize;
        match self {
            Orientation::White => file,
            Orientation::Black => 7 - file,
        }
    }

    pub fn y(self, square: u8) -> (r: usize)
        requires
            square < 64,
        ensures
            r == self.spec_y(square as u64),
            r < 8,
    {
        let rank = (square / 8) as usize;
        match self {
            Orientation::White => 7 - rank,
            Orientation::Black => rank,
        }
    }
}

impl Default for Orientation {
    fn default() -> (r: Orientation)
        ensures
            r == Orientation::White,
    {
        Orientation::White
    }
}

/// The two orientations map every square to device coordinates that are
/// reflections of each other across both axes.
pub proof fn lemma_orientation_reflection(sq: u64)
    requires
        sq < 64,
    ensures
        Orientation::Black.spec_x(sq) == 7 - Orientation::White.spec_x(sq),
        Orientation::Black.spec_y(sq) == 7 - Orientation::White.spec_y(sq),
{
}

/// Whether rank and file labels are drawn on the edge squares.
#[derive(Clone, Copy, Debug, PartialEq, Eq, Structural)]
pub enum Coordinates {
    No,
    Yes,
}

/// An annotation badge drawn on the destination square of a move.
#[derive(Clone, Copy, Debug, PartialEq, Eq, Structural)]
pub enum MoveGlyph {
    Good,
    Mistake,
    Brilliant,
    Blunder,
    Interesting,
    Dubious,
}

impl MoveGlyph {
    /// Offset of this glyph's badge color from the first extended
    /// palette index (offset 0 holds the glyph text color).
    pub open spec fn spec_index(self) -> u8 {
        match self {
            MoveGlyph::Good => 1,
            MoveGlyph::Mistake => 2,
            MoveGlyph::Brilliant => 3,
            MoveGlyph::Blunder => 4,
            MoveGlyph::Interesting => 5,
            MoveGlyph::Dubious => 6,
        }
    }

    #[verifier::when_used_as_spec(spec_index)]
    pub fn index(self) -> (r: u8)
        ensures
            r == self.spec_index(),
            1 <= r <= 6,
    {
        match self {
            MoveGlyph::Good => 1,
            MoveGlyph::Mistake => 2,
            MoveGlyph::Brilliant => 3,
            MoveGlyph::Blunder => 4,
            MoveGlyph::Interesting => 5,
            MoveGlyph::Dubious => 6,
        }
    }

    /// Badge background color, as red, green and blue channels.
    pub open spec fn spec_color(self) -> (u8, u8, u8) {
        match self {
            MoveGlyph::Good => (0x22, 0xac, 0x38),
            MoveGlyph::Mistake => (0xe6, 0x9d, 0x00),
            MoveGlyph::Brilliant => (0x16, 0x80, 0xb2),
            MoveGlyph::Blunder => (0xdf, 0x53, 0x53),
            MoveGlyph::Interesting => (0xea, 0x45, 0xd8),
            MoveGlyph::Dubious => (0x56, 0xb4, 0xe9),
        }
    }

    #[verifier::when_used_as_spec(spec_color)]
    pub fn color(self) -> (r: (u8, u8, u8))
        ensures
            r == self.spec_color(),
    {
        match self {
            MoveGlyph::Good => (0x22, 0xac, 0x38),
            MoveGlyph::Mistake => (0xe6, 0x9d, 0x00),
            MoveGlyph::Brilliant => (0x16, 0x80, 0xb2),
            MoveGlyph::Blunder => (0xdf, 0x53, 0x53),
            MoveGlyph::Interesting => (0xea, 0x45, 0xd8),
            MoveGlyph::Dubious => (0x56, 0xb4, 0xe9),
        }
    }

    /// The annotation text drawn inside the badge.
    pub fn label(self) -> (r: &'static str)
        ensures
            r@ == self.spec_label(),
    {
        proof {
            reveal_strlit("!");
            reveal_strlit("?");
            reveal_strlit("!!");
            reveal_strlit("??");
            reveal_strlit("!?");
            reveal_strlit("?!");
        }
        match self {
            MoveGlyph::Good => "!",
            MoveGlyph::Mistake => "?",
            MoveGlyph::Brilliant => "!!",
            MoveGlyph::Blunder => "??",
            MoveGlyph::Interesting => "!?",
            MoveGlyph::Dubious => "?!",
        }
    }

    pub open spec fn spec_label(self) -> Seq<char> {
        match self {
            MoveGlyph::Good => seq!['!'],
            MoveGlyph::Mistake => seq!['?'],
            MoveGlyph::Brilliant => seq!['!', '!'],
            MoveGlyph::Blunder => seq!['?', '?'],
            MoveGlyph::Interesting => seq!['!', '?'],
            MoveGlyph::Dubious => seq!['?', '!'],
        }
    }
}

/// How the checked square is chosen: not at all, the king of the side to
/// move, or an explicitly given square.
#[derive(Clone, Copy, Debug, PartialEq, Eq, Structural)]
pub enum CheckSquare {
    No,
    Yes,
    Square(u8),
}

impl CheckSquare {
    pub open spec fn wf(self) -> bool {
        match self {
            CheckSquare::Square(sq) => sq < 64,
            _ => true,
        }
    }

    /// The checked square this selector denotes on `board` with `turn`
    /// to move: none, the king of the side to move (when that side has
    /// exactly one), or the given square.
    pub open spec fn spec_to_square(self, board: Board, turn: Color) -> Option<u8> {
        match self {
            CheckSquare::No => None,
            CheckSquare::Yes => crate::board::spec_single_square(
                board.kings & board.spec_by_color(turn),
            ),
            CheckSquare::Square(sq) => Some(sq),
        }
    }

    pub fn to_square(self, board: &Board, turn: Color) -> (r: Option<u8>)
        requires
            self.wf(),
        ensures
            r == self.spec_to_square(*board, turn),
            r is Some ==> r->0 < 64,
    {
        match self {
            CheckSquare::No => None,
            CheckSquare::Yes => board.king_of(turn),
            CheckSquare::Square(sq) => Some(sq),
        }
    }
}

impl Default for CheckSquare {
    fn default() -> (r: CheckSquare)
        ensures
            r == CheckSquare::No,
    {
        CheckSquare::No
    }
}

/// The square set holding the one checked square, or no square.
pub open spec fn spec_check_bb(sq: Option<u8>) -> u64 {
    match sq {
        Some(s) => 1u64 << (s as u64),
        None => 0,
    }
}

pub fn check_bb(sq: Option<u8>) -> (r: u64)
    requires
        sq is Some ==> sq->0 < 64,
    ensures
        r == spec_check_bb(sq),
{
    match sq {
        Some(s) => 1u64 << s,
        None => 0,
    }
}

/// Whether a move's squares are on the board.
pub open spec fn spec_move_wf(m: Option<MoveCoords>) -> bool {
    match m {
        Some(MoveCoords::Normal { from, to }) => from < 64 && to < 64,
        Some(MoveCoords::Put { to }) => to < 64,
        _ => true,
    }
}

/// A still-image request, already parsed and validated: one position
/// with its display options.
pub struct RequestParams {
    pub white: Option<PlayerName>,
    pub black: Option<PlayerName>,
    pub comment: Option<Vec<u8>>,
    pub board: Board,
    /// The side to move, used when the check selector asks for the
    /// king of the side to move.
    pub turn: Color,
    pub last_move: Option<MoveCoords>,
    pub check: CheckSquare,
    pub orientation: Orientation,
    pub coordinates: Coordinates,
    pub theme: BoardTheme,
    pub piece: PieceSet,
}

/// One position of an animation request.
#[derive(Clone, Copy, Debug)]
pub struct RequestFrame {
    pub board: Board,
    pub turn: Color,
    pub delay: Option<u16>,
    pub last_move: Option<MoveCoords>,
    pub check: CheckSquare,
    pub glyph: Option<MoveGlyph>,
}

/// The per-side clock values of an animation, one entry per full move,
/// each already formatted and rasterized.
pub struct Clocks {
    pub white: Vec<ClockText>,
    pub black: Vec<ClockText>,
}

/// An animation request, already parsed and validated.
pub struct RequestBody {
    pub white: Option<PlayerName>,
    pub black: Option<PlayerName>,
    pub comment: Option<Vec<u8>>,
    pub frames: Vec<RequestFrame>,
    pub clocks: Option<Clocks>,
    pub orientation: Orientation,
    pub coordinates: Coordinates,
    /// Default frame delay in centiseconds.
    pub delay: u16,
    pub theme: BoardTheme,
    pub piece: PieceSet,
    /// Whether to append the defensive trailing frame.
    pub kork: bool,
}

} // verus!
