use chess_gif::assets::BoardTheme;
use chess_gif::board::{Color, Piece, Role};
use chess_gif::svg_theme::{ByPieceColor, ByPieceRole, SvgTheme};

fn sprite_for(color: Color, role: Role) -> Vec<u8> {
    vec![color as u8, role as u8]
}

#[test]
fn test_svg_theme_lookup() {
    let map = ByPieceColor::new(|c| ByPieceRole::new(move |r| sprite_for(c, r)));
    let theme = SvgTheme::new(BoardTheme::Blue, map);
    assert_eq!(theme.board_theme, BoardTheme::Blue);
    assert_eq!(theme.square_size(), 90);
    assert_eq!(theme.chessboard_size(), 720);
    let wq = theme.get_piece(Piece { color: Color::White, role: Role::Queen });
    assert_eq!(wq, &sprite_for(Color::White, Role::Queen));
    let bp = theme.get_piece(Piece { color: Color::Black, role: Role::Pawn });
    assert_eq!(bp, &sprite_for(Color::Black, Role::Pawn));
}

#[test]
fn test_by_piece_role_order() {
    let c = ByPieceRole::new(|r: Role| r);
    assert_eq!(c.by_piece_role(Role::Pawn), &Role::Pawn);
    assert_eq!(c.by_piece_role(Role::King), &Role::King);
}

#[test]
fn test_by_piece_color_order() {
    let c = ByPieceColor::new(|col: Color| col);
    assert_eq!(c.by_piece_color(Color::White), &Color::White);
    assert_eq!(c.by_piece_color(Color::Black), &Color::Black);
}
