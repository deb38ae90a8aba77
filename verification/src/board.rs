//! Board model: squares, piece sets as 64-bit square sets, and occupancy.

use vstd::prelude::*;

verus! {

/// True when square `sq` is a member of the square set `bb`
/// (one bit per square, a1 = bit 0 .. h8 = bit 63).
pub open spec fn bb_has(bb: u64, sq: u64) -> bool {
    bb & (1u64 << sq) != 0
}

/// The side a piece belongs to.
#[derive(Clone, Copy, Debug, PartialEq, Eq, Structural)]
pub enum Color {
    White,
    Black,
}

impl Color {
    /// The opposing side.
    pub open spec fn spec_other(self) -> Color {
        match self {
            Color::White => Color::Black,
            Color::Black => Color::White,
        }
    }

    #[verifier::when_used_as_spec(spec_other)]
    pub fn other(self) -> (r: Color)
        ensures
            r == self.spec_other(),
    {
        match self {
            Color::White => Color::Black,
            Color::Black => Color::White,
        }
    }
}

/// The kind of a piece.
#[derive(Clone, Copy, Debug, PartialEq, Eq, Structural)]
pub enum Role {
    Pawn,
    Knight,
    Bishop,
    Rook,
    Queen,
    King,
}

impl Role {
    /// Row of this role's sprites in the atlas (the metadata row is row 0).
    pub open spec fn spec_row(self) -> u64 {
        match self {
            Role::Pawn => 1,
            Role::Knight => 2,
            Role::Bishop => 3,
            Role::Rook => 4,
            Role::Queen => 5,
            Role::King => 6,
        }
    }

    #[verifier::when_used_as_spec(spec_row)]
    pub fn row(self) -> (r: u64)
        ensures
            r == self.spec_row(),
    {
        match self {
            Role::Pawn => 1,
            Role::Knight => 2,
            Role::Bishop => 3,
            Role::Rook => 4,
            Role::Queen => 5,
            Role::King => 6,
        }
    }
}

/// A colored piece.
#[derive(Clone, Copy, Debug, PartialEq, Eq, Structural)]
pub struct Piece {
    pub color: Color,
    pub role: Role,
}

/// Piece placement, one square set per side and one per role.
#[derive(Clone, Copy, Debug, PartialEq, Eq, Structural)]
pub struct Board {
    pub white: u64,
    pub black: u64,
    pub pawns: u64,
    pub knights: u64,
    pub bishops: u64,
    pub rooks: u64,
    pub queens: u64,
    pub kings: u64,
}

impl Board {
    /// The side and role sets describe one consistent placement:
    /// no square is both white and black, no square holds two roles,
    /// and every occupied square holds exactly one role.
    pub open spec fn wf(self) -> bool {
        &&& self.white & self.black == 0
        &&& self.pawns & self.knights == 0
        &&& self.pawns & self.bishops == 0
        &&& self.pawns & self.rooks == 0
        &&& self.pawns & self.queens == 0
        &&& self.pawns & self.kings == 0
        &&& self.knights & self.bishops == 0
        &&& self.knights & self.rooks == 0
        &&& self.knights & self.queens == 0
        &&& self.knights & self.kings == 0
        &&& self.bishops & self.rooks == 0
        &&& self.bishops & self.queens == 0
        &&& self.bishops & self.kings == 0
        &&& self.rooks & self.queens == 0
        &&& self.rooks & self.kings == 0
        &&& self.queens & self.kings == 0
        &&& (self.pawns | self.knights | self.bishops | self.rooks | self.queens | self.kings)
            == (self.white | self.black)
    }

    /// All occupied squares.
    pub open spec fn spec_occupied(self) -> u64 {
        self.white | self.black
    }

    #[verifier::when_used_as_spec(spec_occupied)]
    pub fn occupied(self) -> (r: u64)
        ensures
            r == self.spec_occupied(),
    {
        self.white | self.black
    }

    /// The set of squares held by `color`.
    pub open spec fn spec_by_color(self, color: Color) -> u64 {
        match color {
            Color::White => self.white,
            Color::Black => self.black,
        }
    }

    #[verifier::when_used_as_spec(spec_by_color)]
    pub fn by_color(self, color: Color) -> (r: u64)
        ensures
            r == self.spec_by_color(color),
    {
        match color {
            Color::White => self.white,
            Color::Black => self.black,
        }
    }

    /// The set of squares holding `role`.
    pub open spec fn spec_by_role(self, role: Role) -> u64 {
        match role {
            Role::Pawn => self.pawns,
            Role::Knight => self.knights,
            Role::Bishop => self.bishops,
            Role::Rook => self.rooks,
            Role::Queen => self.queens,
            Role::King => self.kings,
        }
    }

    #[verifier::when_used_as_spec(spec_by_role)]
    pub fn by_role(self, role: Role) -> (r: u64)
        ensures
            r == self.spec_by_role(role),
    {
        match role {
            Role::Pawn => self.pawns,
            Role::Knight => self.knights,
            Role::Bishop => self.bishops,
            Role::Rook => self.rooks,
            Role::Queen => self.queens,
            Role::King => self.kings,
        }
    }

    /// The empty placement.
    pub open spec fn spec_empty() -> Board {
        Board { white: 0, black: 0, pawns: 0, knights: 0, bishops: 0, rooks: 0, queens: 0, kings: 0 }
    }

    /// An empty board.
    pub fn empty() -> (b: Board)
        ensures
            b == Board::spec_empty(),
            b.wf(),
    {
        let b = Board { white: 0, black: 0, pawns: 0, knights: 0, bishops: 0, rooks: 0, queens: 0, kings: 0 };
        proof {
            assert(0u64 & 0u64 == 0 && (0u64 | 0u64) == 0) by (bit_vector);
        }
        b
    }

    /// The piece on `sq`, if any.
    pub open spec fn spec_piece_at(self, sq: u64) -> Option<Piece> {
        if bb_has(self.white, sq) || bb_has(self.black, sq) {
            let color = if bb_has(self.white, sq) {
                Color::White
            } else {
                Color::Black
            };
            if bb_has(self.pawns, sq) {
                Some(Piece { color, role: Role::Pawn })
            } else if bb_has(self.knights, sq) {
                Some(Piece { color, role: Role::Knight })
            } else if bb_has(self.bishops, sq) {
                Some(Piece { color, role: Role::Bishop })
            } else if bb_has(self.rooks, sq) {
                Some(Piece { color, role: Role::Rook })
            } else if bb_has(self.queens, sq) {
                Some(Piece { color, role: Role::Queen })
            } else if bb_has(self.kings, sq) {
                Some(Piece { color, role: Role::King })
            } else {
                None
            }
        } else {
            None
        }
    }

    pub fn piece_at(&self, sq: u8) -> (r: Option<Piece>)
        requires
            sq < 64,
        ensures
            r == self.spec_piece_at(sq as u64),
    {
        let mask: u64 = 1u64 << sq;
        if self.white & mask == 0 && self.black & mask == 0 {
            return None;
        }
        let color = if self.white & mask != 0 {
            Color::White
        } else {
            Color::Black
        };
        let role = if self.pawns & mask != 0 {
            Role::Pawn
        } else if self.knights & mask != 0 {
            Role::Knight
        } else if self.bishops & mask != 0 {
            Role::Bishop
        } else if self.rooks & mask != 0 {
            Role::Rook
        } else if self.queens & mask != 0 {
            Role::Queen
        } else if self.kings & mask != 0 {
            Role::King
        } else {
            return None;
        };
        Some(Piece { color, role })
    }

    /// The square of `color`'s king, when that side has exactly one
    /// king; nothing when it has none or several.
    pub fn king_of(&self, color: Color) -> (r: Option<u8>)
        ensures
            r == spec_single_square(self.kings & self.spec_by_color(color)),
            r is Some ==> r->0 < 64,
    {
        let bb: u64 = self.kings & self.by_color(color);
        if bb == 0 || bb & (bb - 1) != 0 {
            proof {
                assert(!spec_is_single(bb));
            }
            return None;
        }
        proof {
            assert(spec_is_single(bb));
        }
        let mut sq: u8 = 0;
        while sq < 64
            invariant
                sq <= 64,
                bb == self.kings & self.spec_by_color(color),
                spec_is_single(bb),
                forall|t: u64| t < sq ==> !bb_has(bb, t),
            decreases 64 - sq,
        {
            if bb & (1u64 << sq) != 0 {
                proof {
                    lemma_first_set_from(bb, 0, sq as u64);
                }
                return Some(sq);
            }
            sq = sq + 1;
        }
        proof {
            lemma_first_set_from_none(bb, 0);
        }
        None
    }
}

/// The lowest set square of `bb` at or above `i`, if any.
pub open spec fn first_set_from(bb: u64, i: u64) -> Option<u8>
    decreases 64 - i,
{
    if i >= 64 {
        None
    } else if bb_has(bb, i) {
        Some(i as u8)
    } else {
        first_set_from(bb, (i + 1) as u64)
    }
}

/// The lowest set square of `bb`, if any.
pub open spec fn spec_first_set(bb: u64) -> Option<u8> {
    first_set_from(bb, 0)
}

/// Whether `bb` holds exactly one square.
pub open spec fn spec_is_single(bb: u64) -> bool {
    bb != 0 && bb & ((bb - 1) as u64) == 0
}

/// The single square of `bb` when it holds exactly one, else nothing.
pub open spec fn spec_single_square(bb: u64) -> Option<u8> {
    if spec_is_single(bb) {
        spec_first_set(bb)
    } else {
        None
    }
}

proof fn lemma_first_set_from(bb: u64, i: u64, sq: u64)
    requires
        i <= sq < 64,
        bb_has(bb, sq),
        forall|t: u64| i <= t < sq ==> !bb_has(bb, t),
    ensures
        first_set_from(bb, i) == Some(sq as u8),
    decreases 64 - i,
{
    if i < sq {
        lemma_first_set_from(bb, (i + 1) as u64, sq);
    }
}

proof fn lemma_first_set_from_none(bb: u64, i: u64)
    requires
        i <= 64,
        forall|t: u64| i <= t < 64 ==> !bb_has(bb, t),
    ensures
        first_set_from(bb, i) is None,
    decreases 64 - i,
{
    if i < 64 {
        lemma_first_set_from_none(bb, (i + 1) as u64);
    }
}

/// The origin and destination of the move that produced a frame,
/// as far as square highlighting is concerned.
#[derive(Clone, Copy, Debug, PartialEq, Eq, Structural)]
pub enum MoveCoords {
    /// An ordinary move from one square to another.
    Normal { from: u8, to: u8 },
    /// A piece dropped or placed on a single square.
    Put { to: u8 },
    /// No move, or a null move.
    Null,
}

/// The squares highlighted for a move: origin and destination for a
/// normal move, the destination alone for a drop, none otherwise.
pub open spec fn spec_highlight(uci: Option<MoveCoords>) -> u64 {
    match uci {
        Some(MoveCoords::Normal { from, to }) => (1u64 << (from as u64)) | (1u64 << (to as u64)),
        Some(MoveCoords::Put { to }) => 1u64 << (to as u64),
        _ => 0,
    }
}

pub fn highlight_uci(uci: Option<MoveCoords>) -> (r: u64)
    requires
        match uci {
            Some(MoveCoords::Normal { from, to }) => from < 64 && to < 64,
            Some(MoveCoords::Put { to }) => to < 64,
            _ => true,
        },
    ensures
        r == spec_highlight(uci),
{
    match uci {
        Some(MoveCoords::Normal { from, to }) => (1u64 << from) | (1u64 << to),
        Some(MoveCoords::Put { to }) => 1u64 << to,
        _ => 0,
    }
}

} // verus!
