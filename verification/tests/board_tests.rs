use chess_gif::api::{CheckSquare, Orientation};
use chess_gif::board::{highlight_uci, Board, Color, MoveCoords, Piece, Role};
use chess_gif::frame::RenderFrame;

fn startpos() -> Board {
    Board {
        white: 0x0000_0000_0000_FFFF,
        black: 0xFFFF_0000_0000_0000,
        pawns: 0x00FF_0000_0000_FF00,
        knights: 0x4200_0000_0000_0042,
        bishops: 0x2400_0000_0000_0024,
        rooks: 0x8100_0000_0000_0081,
        queens: 0x0800_0000_0000_0008,
        kings: 0x1000_0000_0000_0010,
    }
}

fn frame_of(board: Board) -> RenderFrame {
    RenderFrame {
        board,
        highlighted: 0,
        checked: 0,
        delay: None,
        glyph: None,
        white_clock: None,
        black_clock: None,
    }
}

#[test]
fn test_diff_reflexive() {
    let f = frame_of(startpos());
    assert_eq!(f.diff(&f), 0);
}

#[test]
fn test_diff_symmetric() {
    let f1 = frame_of(startpos());
    let mut b2 = startpos();
    b2.pawns ^= (1u64 << 12) | (1u64 << 28);
    b2.white ^= (1u64 << 12) | (1u64 << 28);
    let f2 = frame_of(b2);
    assert_eq!(f1.diff(&f2), f2.diff(&f1));
    assert_ne!(f1.diff(&f2), 0);
}

#[test]
fn test_diff_single_move() {
    // Ng1-f3: g1 is square 6, f3 is square 21; nothing is captured and
    // no check status changes, so exactly those two squares differ.
    let f1 = frame_of(startpos());
    let m = (1u64 << 6) | (1u64 << 21);
    let mut b2 = startpos();
    b2.knights ^= m;
    b2.white ^= m;
    let f2 = frame_of(b2);
    assert_eq!(f2.diff(&f1), m);
}

#[test]
fn test_diff_includes_highlight_and_check() {
    let f1 = frame_of(startpos());
    let mut f2 = frame_of(startpos());
    f2.highlighted = 1u64 << 3;
    f2.checked = 1u64 << 60;
    assert_eq!(f1.diff(&f2), (1u64 << 3) | (1u64 << 60));
}

#[test]
fn test_piece_at_startpos() {
    let b = startpos();
    assert_eq!(
        b.piece_at(0),
        Some(Piece { color: Color::White, role: Role::Rook })
    );
    assert_eq!(
        b.piece_at(4),
        Some(Piece { color: Color::White, role: Role::King })
    );
    assert_eq!(
        b.piece_at(12),
        Some(Piece { color: Color::White, role: Role::Pawn })
    );
    assert_eq!(
        b.piece_at(59),
        Some(Piece { color: Color::Black, role: Role::Queen })
    );
    assert_eq!(b.piece_at(35), None);
}

#[test]
fn test_occupied() {
    assert_eq!(startpos().occupied(), 0xFFFF_0000_0000_FFFF);
    assert_eq!(Board::empty().occupied(), 0);
}

#[test]
fn test_king_of() {
    let b = startpos();
    assert_eq!(b.king_of(Color::White), Some(4));
    assert_eq!(b.king_of(Color::Black), Some(60));
    assert_eq!(Board::empty().king_of(Color::White), None);
    // A side with two kings has no single king square.
    let mut twins = startpos();
    twins.kings |= 1u64 << 20;
    twins.white |= 1u64 << 20;
    assert_eq!(twins.king_of(Color::White), None);
    assert_eq!(twins.king_of(Color::Black), Some(60));
}

#[test]
fn test_check_square_to_square() {
    let b = startpos();
    assert_eq!(CheckSquare::No.to_square(&b, Color::White), None);
    assert_eq!(CheckSquare::Yes.to_square(&b, Color::Black), Some(60));
    assert_eq!(CheckSquare::Square(17).to_square(&b, Color::White), Some(17));
}

#[test]
fn test_highlight_uci() {
    assert_eq!(
        highlight_uci(Some(MoveCoords::Normal { from: 6, to: 21 })),
        (1u64 << 6) | (1u64 << 21)
    );
    assert_eq!(highlight_uci(Some(MoveCoords::Put { to: 33 })), 1u64 << 33);
    assert_eq!(highlight_uci(Some(MoveCoords::Null)), 0);
    assert_eq!(highlight_uci(None), 0);
}

#[test]
fn test_orientation_coordinates() {
    // a1 is square 0: bottom-left for White, top-right for Black.
    assert_eq!(Orientation::White.x(0), 0);
    assert_eq!(Orientation::White.y(0), 7);
    assert_eq!(Orientation::Black.x(0), 7);
    assert_eq!(Orientation::Black.y(0), 0);
    // e4 is square 28.
    assert_eq!(Orientation::White.x(28), 4);
    assert_eq!(Orientation::White.y(28), 4);
}

#[test]
fn test_orientation_reflection() {
    for sq in 0u8..64 {
        assert_eq!(Orientation::Black.x(sq), 7 - Orientation::White.x(sq));
        assert_eq!(Orientation::Black.y(sq), 7 - Orientation::White.y(sq));
    }
}

#[test]
fn test_orientation_fold() {
    assert_eq!(Orientation::White.fold(1, 2), 1);
    assert_eq!(Orientation::Black.fold(1, 2), 2);
    assert_eq!(Orientation::default(), Orientation::White);
}
