//! The data model shared with the vector output path: per-piece sprite
//! sources keyed by color and role, plus fixed board geometry.

use vstd::prelude::*;

use crate::assets::BoardTheme;
use crate::board::{Color, Piece, Role};

verus! {

pub const SQUARE_SIZE: usize = 90;

/// One value of type `T` for each piece color.
pub struct ByPieceColor<T> {
    inner: [T; 2],
}

impl Color {
    pub open spec fn spec_index(self) -> int {
        match self {
            Color::Black => 0,
            Color::White => 1,
        }
    }

    pub fn color_index(self) -> (r: usize)
        ensures
            r == self.spec_index(),
            r < 2,
    {
        match self {
            Color::Black => 0,
            Color::White => 1,
        }
    }
}

impl<T> ByPieceColor<T> {
    pub closed spec fn spec_get(self, color: Color) -> T {
        self.inner@[color.spec_index()]
    }

    /// Build a container by applying `f` to both colors.
    pub fn new<F: Fn(Color) -> T>(f: F) -> (r: ByPieceColor<T>)
        requires
            forall|c: Color| #[trigger] call_requires(f, (c,)),
        ensures
            forall|c: Color| #[trigger] call_ensures(f, (c,), r.spec_get(c)),
    {
        let inner = [f(Color::Black), f(Color::White)];
        ByPieceColor { inner }
    }

    pub fn by_piece_color(&self, color: Color) -> (r: &T)
        ensures
            *r == self.spec_get(color),
    {
        &self.inner[color.color_index()]
    }
}

/// One value of type `T` for each piece role.
pub struct ByPieceRole<T> {
    inner: [T; 6],
}

impl Role {
    pub open spec fn spec_index(self) -> int {
        match self {
            Role::Pawn => 0,
            Role::Knight => 1,
            Role::Bishop => 2,
            Role::Rook => 3,
            Role::Queen => 4,
            Role::King => 5,
        }
    }

    pub fn role_index(self) -> (r: usize)
        ensures
            r == self.spec_index(),
            r < 6,
    {
        match self {
            Role::Pawn => 0,
            Role::Knight => 1,
            Role::Bishop => 2,
            Role::Rook => 3,
            Role::Queen => 4,
            Role::King => 5,
        }
    }
}

impl<T> ByPieceRole<T> {
    pub closed spec fn spec_get(self, role: Role) -> T {
        self.inner@[role.spec_index()]
    }

    /// Build a container by applying `f` to every role.
    pub fn new<F: Fn(Role) -> T>(f: F) -> (r: ByPieceRole<T>)
        requires
            forall|role: Role| #[trigger] call_requires(f, (role,)),
        ensures
            forall|role: Role| #[trigger] call_ensures(f, (role,), r.spec_get(role)),
    {
        let inner = [
            f(Role::Pawn),
            f(Role::Knight),
            f(Role::Bishop),
            f(Role::Rook),
            f(Role::Queen),
            f(Role::King),
        ];
        ByPieceRole { inner }
    }

    pub fn by_piece_role(&self, role: Role) -> (r: &T)
        ensures
            *r == self.spec_get(role),
    {
        &self.inner[role.role_index()]
    }
}

/// Sprite sources for the vector output path: one image per piece,
/// keyed by color and role.
pub struct SvgTheme {
    pub board_theme: BoardTheme,
    pub map: ByPieceColor<ByPieceRole<Vec<u8>>>,
}

impl SvgTheme {
    pub open spec fn spec_get_piece(self, piece: Piece) -> Seq<u8> {
        self.map.spec_get(piece.color).spec_get(piece.role)@
    }

    /// Build a theme from the given per-piece sprite sources.
    pub fn new(board_theme: BoardTheme, map: ByPieceColor<ByPieceRole<Vec<u8>>>) -> (r: SvgTheme)
        ensures
            r.board_theme == board_theme,
            forall|p: Piece| #[trigger] r.spec_get_piece(p) == map.spec_get(p.color).spec_get(
                p.role,
            )@,
    {
        SvgTheme { board_theme, map }
    }

    /// Edge length of one square, in pixels.
    pub fn square_size(&self) -> (r: usize)
        ensures
            r == SQUARE_SIZE,
    {
        SQUARE_SIZE
    }

    /// Edge length of the whole board, in pixels.
    pub fn chessboard_size(&self) -> (r: usize)
        ensures
            r == SQUARE_SIZE * 8,
    {
        self.square_size() * 8
    }

    /// The sprite source for `piece`.
    pub fn get_piece(&self, piece: Piece) -> (r: &Vec<u8>)
        ensures
            r@ == self.spec_get_piece(piece),
    {
        self.map.by_piece_color(piece.color).by_piece_role(piece.role)
    }
}

} // verus!
