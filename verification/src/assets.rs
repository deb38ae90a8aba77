//! The fixed enumerations of board styles and piece sets, and the
//! total containers keyed by them.

use vstd::prelude::*;

verus! {

/// The available board styles.
#[derive(Clone, Copy, Debug, PartialEq, Eq, Structural)]
pub enum BoardTheme {
    Blue,
    Brown,
    Green,
    Ic,
    Pink,
    Purple,
}

impl BoardTheme {
    pub open spec fn spec_index(self) -> int {
        match self {
            BoardTheme::Blue => 0,
            BoardTheme::Brown => 1,
            BoardTheme::Green => 2,
            BoardTheme::Ic => 3,
            BoardTheme::Pink => 4,
            BoardTheme::Purple => 5,
        }
    }

    pub fn index(self) -> (r: usize)
        ensures
            r == self.spec_index(),
            r < 6,
    {
        match self {
            BoardTheme::Blue => 0,
            BoardTheme::Brown => 1,
            BoardTheme::Green => 2,
            BoardTheme::Ic => 3,
            BoardTheme::Pink => 4,
            BoardTheme::Purple => 5,
        }
    }
}

impl Default for BoardTheme {
    fn default() -> (r: BoardTheme)
        ensures
            r == BoardTheme::Brown,
    {
        BoardTheme::Brown
    }
}

/// One value of type `T` for every board style.
pub struct ByBoardTheme<T> {
    inner: [T; 6],
}

impl<T> ByBoardTheme<T> {
    /// The value stored for `board`.
    pub closed spec fn spec_get(self, board: BoardTheme) -> T {
        self.inner@[board.spec_index()]
    }

    /// Build a container by applying `f` to every board style.
    pub fn new<F: Fn(BoardTheme) -> T>(f: F) -> (r: ByBoardTheme<T>)
        requires
            forall|b: BoardTheme| #[trigger] call_requires(f, (b,)),
        ensures
            forall|b: BoardTheme| #[trigger] call_ensures(f, (b,), r.spec_get(b)),
    {
        let inner = [
            f(BoardTheme::Blue),
            f(BoardTheme::Brown),
            f(BoardTheme::Green),
            f(BoardTheme::Ic),
            f(BoardTheme::Pink),
            f(BoardTheme::Purple),
        ];
        ByBoardTheme { inner }
    }

    pub fn by_board_theme(&self, board: BoardTheme) -> (r: &T)
        ensures
            *r == self.spec_get(board),
    {
        &self.inner[board.index()]
    }
}

/// The available piece sets.
#[derive(Clone, Copy, Debug, PartialEq, Eq, Structural)]
pub enum PieceSet {
    Alpha,
    Anarcandy,
    Caliente,
    California,
    Cardinal,
    Cburnett,
    Celtic,
    Chess7,
    Chessnut,
    Companion,
    Cooke,
    Disguised,
    Dubrovny,
    Fantasy,
    Firi,
    Fresca,
    Gioco,
    Governor,
    Horsey,
    Icpieces,
    KiwenSuwi,
    Kosal,
    Leipzig,
    Letter,
    Maestro,
    Merida,
    Monarchy,
    Mpchess,
    Pirouetti,
    Pixel,
    Reillycraig,
    Rhosgfx,
    Riohacha,
    Shapes,
    Spatial,
    Staunty,
    Tatiana,
    Xkcd,
}

impl PieceSet {
    pub open spec fn spec_index(self) -> int {
        match self {
            PieceSet::Alpha => 0,
            PieceSet::Anarcandy => 1,
            PieceSet::Caliente => 2,
            PieceSet::California => 3,
            PieceSet::Cardinal => 4,
            PieceSet::Cburnett => 5,
            PieceSet::Celtic => 6,
            PieceSet::Chess7 => 7,
            PieceSet::Chessnut => 8,
            PieceSet::Companion => 9,
            PieceSet::Cooke => 10,
            PieceSet::Disguised => 11,
            PieceSet::Dubrovny => 12,
            PieceSet::Fantasy => 13,
            PieceSet::Firi => 14,
            PieceSet::Fresca => 15,
            PieceSet::Gioco => 16,
            PieceSet::Governor => 17,
            PieceSet::Horsey => 18,
            PieceSet::Icpieces => 19,
            PieceSet::KiwenSuwi => 20,
            PieceSet::Kosal => 21,
            PieceSet::Leipzig => 22,
            PieceSet::Letter => 23,
            PieceSet::Maestro => 24,
            PieceSet::Merida => 25,
            PieceSet::Monarchy => 26,
            PieceSet::Mpchess => 27,
            PieceSet::Pirouetti => 28,
            PieceSet::Pixel => 29,
            PieceSet::Reillycraig => 30,
            PieceSet::Rhosgfx => 31,
            PieceSet::Riohacha => 32,
            PieceSet::Shapes => 33,
            PieceSet::Spatial => 34,
            PieceSet::Staunty => 35,
            PieceSet::Tatiana => 36,
            PieceSet::Xkcd => 37,
        }
    }

    pub fn index(self) -> (r: usize)
        ensures
            r == self.spec_index(),
            r < 38,
    {
        match self {
            PieceSet::Alpha => 0,
            PieceSet::Anarcandy => 1,
            PieceSet::Caliente => 2,
            PieceSet::California => 3,
            PieceSet::Cardinal => 4,
            PieceSet::Cburnett => 5,
            PieceSet::Celtic => 6,
            PieceSet::Chess7 => 7,
            PieceSet::Chessnut => 8,
            PieceSet::Companion => 9,
            PieceSet::Cooke => 10,
            PieceSet::Disguised => 11,
            PieceSet::Dubrovny => 12,
            PieceSet::Fantasy => 13,
            PieceSet::Firi => 14,
            PieceSet::Fresca => 15,
            PieceSet::Gioco => 16,
            PieceSet::Governor => 17,
            PieceSet::Horsey => 18,
            PieceSet::Icpieces => 19,
            PieceSet::KiwenSuwi => 20,
            PieceSet::Kosal => 21,
            PieceSet::Leipzig => 22,
            PieceSet::Letter => 23,
            PieceSet::Maestro => 24,
            PieceSet::Merida => 25,
            PieceSet::Monarchy => 26,
            PieceSet::Mpchess => 27,
            PieceSet::Pirouetti => 28,
            PieceSet::Pixel => 29,
            PieceSet::Reillycraig => 30,
            PieceSet::Rhosgfx => 31,
            PieceSet::Riohacha => 32,
            PieceSet::Shapes => 33,
            PieceSet::Spatial => 34,
            PieceSet::Staunty => 35,
            PieceSet::Tatiana => 36,
            PieceSet::Xkcd => 37,
        }
    }
}

impl Default for PieceSet {
    fn default() -> (r: PieceSet)
        ensures
            r == PieceSet::Cburnett,
    {
        PieceSet::Cburnett
    }
}

/// One value of type `T` for every piece set.
pub struct ByPieceSet<T> {
    inner: [T; 38],
}

impl<T> ByPieceSet<T> {
    /// The value stored for `piece_set`.
    pub closed spec fn spec_get(self, piece_set: PieceSet) -> T {
        self.inner@[piece_set.spec_index()]
    }

    /// Build a container by applying `f` to every piece set.
    pub fn new<F: Fn(PieceSet) -> T>(f: F) -> (r: ByPieceSet<T>)
        requires
            forall|p: PieceSet| #[trigger] call_requires(f, (p,)),
        ensures
            forall|p: PieceSet| #[trigger] call_ensures(f, (p,), r.spec_get(p)),
    {
        let inner = [
            f(PieceSet::Alpha),
            f(PieceSet::Anarcandy),
            f(PieceSet::Caliente),
            f(PieceSet::California),
            f(PieceSet::Cardinal),
            f(PieceSet::Cburnett),
            f(PieceSet::Celtic),
            f(PieceSet::Chess7),
            f(PieceSet::Chessnut),
            f(PieceSet::Companion),
            f(PieceSet::Cooke),
            f(PieceSet::Disguised),
            f(PieceSet::Dubrovny),
            f(PieceSet::Fantasy),
            f(PieceSet::Firi),
            f(PieceSet::Fresca),
            f(PieceSet::Gioco),
            f(PieceSet::Governor),
            f(PieceSet::Horsey),
            f(PieceSet::Icpieces),
            f(PieceSet::KiwenSuwi),
            f(PieceSet::Kosal),
            f(PieceSet::Leipzig),
            f(PieceSet::Letter),
            f(PieceSet::Maestro),
            f(PieceSet::Merida),
            f(PieceSet::Monarchy),
            f(PieceSet::Mpchess),
            f(PieceSet::Pirouetti),
            f(PieceSet::Pixel),
            f(PieceSet::Reillycraig),
            f(PieceSet::Rhosgfx),
            f(PieceSet::Riohacha),
            f(PieceSet::Shapes),
            f(PieceSet::Spatial),
            f(PieceSet::Staunty),
            f(PieceSet::Tatiana),
            f(PieceSet::Xkcd),
        ];
        ByPieceSet { inner }
    }

    pub fn by_piece_set(&self, piece_set: PieceSet) -> (r: &T)
        ensures
            *r == self.spec_get(piece_set),
    {
        &self.inner[piece_set.index()]
    }
}

} // verus!
