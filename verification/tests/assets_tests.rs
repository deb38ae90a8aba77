use std::convert::identity;

use chess_gif::assets::{BoardTheme, ByBoardTheme, ByPieceSet, PieceSet};

#[test]
fn test_by_piece_set() {
    assert_eq!(
        ByPieceSet::new(identity).by_piece_set(PieceSet::Tatiana),
        &PieceSet::Tatiana
    );
}

#[test]
fn test_by_board_theme() {
    let c = ByBoardTheme::new(identity);
    assert_eq!(c.by_board_theme(BoardTheme::Blue), &BoardTheme::Blue);
    assert_eq!(c.by_board_theme(BoardTheme::Purple), &BoardTheme::Purple);
}

#[test]
fn test_by_piece_set_indexed() {
    let c = ByPieceSet::new(|p: PieceSet| p.index());
    assert_eq!(*c.by_piece_set(PieceSet::Alpha), 0);
    assert_eq!(*c.by_piece_set(PieceSet::Cburnett), 5);
    assert_eq!(*c.by_piece_set(PieceSet::Xkcd), 37);
}

#[test]
fn test_defaults() {
    assert_eq!(BoardTheme::default(), BoardTheme::Brown);
    assert_eq!(PieceSet::default(), PieceSet::Cburnett);
}
