use chess::{File, Move, Piece, PieceKind, Position, Side};

#[test]
fn test_move_format() {
    assert_eq!(
        Move {
            piece: Piece::Rook(Side::White),
            start_pos: Position(File::A, 3),
            end_pos: Position(File::B, 6),
            captured: false,
            promotion: None,
        }
        .render(),
        "Ra3b6"
    );
}

#[test]
fn test_capture_format() {
    assert_eq!(
        Move {
            piece: Piece::King(Side::White),
            start_pos: Position(File::H, 2),
            end_pos: Position(File::D, 5),
            captured: true,
            promotion: None,
        }
        .render(),
        "Kh2xd5"
    );
}

#[test]
fn rook_capture_format() {
    let m = Move {
        piece: Piece::Rook(Side::White),
        start_pos: Position(File::A, 3),
        end_pos: Position(File::B, 6),
        captured: true,
        promotion: None,
    };
    assert_eq!(m.render(), "Ra3xb6");
}

#[test]
fn pawn_and_minor_piece_format() {
    let pawn = Move {
        piece: Piece::Pawn(Side::Black),
        start_pos: Position(File::E, 7),
        end_pos: Position(File::E, 5),
        captured: false,
        promotion: None,
    };
    assert_eq!(pawn.render(), "e7e5");
    let knight = Move {
        piece: Piece::Knight(Side::White),
        start_pos: Position(File::G, 1),
        end_pos: Position(File::F, 3),
        captured: false,
        promotion: None,
    };
    assert_eq!(knight.render(), "Ng1f3");
    let bishop = Move {
        piece: Piece::Bishop(Side::Black),
        start_pos: Position(File::C, 8),
        end_pos: Position(File::H, 3),
        captured: true,
        promotion: None,
    };
    assert_eq!(bishop.render(), "Bc8xh3");
}

#[test]
fn castling_format() {
    let short = Move {
        piece: Piece::King(Side::White),
        start_pos: Position(File::E, 1),
        end_pos: Position(File::G, 1),
        captured: false,
        promotion: None,
    };
    assert_eq!(short.render(), "O-O");
    let long = Move {
        piece: Piece::King(Side::Black),
        start_pos: Position(File::E, 8),
        end_pos: Position(File::C, 8),
        captured: false,
        promotion: None,
    };
    assert_eq!(long.render(), "O-O-O");
}

#[test]
fn promotion_format() {
    let m = Move {
        piece: Piece::Pawn(Side::White),
        start_pos: Position(File::B, 7),
        end_pos: Position(File::A, 8),
        captured: true,
        promotion: Some(PieceKind::Queen),
    };
    assert_eq!(m.render(), "b7xa8=Q");
    let n = Move { promotion: Some(PieceKind::Knight), captured: false, end_pos: Position(File::B, 8), ..m };
    assert_eq!(n.render(), "b7b8=N");
}
