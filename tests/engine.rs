use chess::{
    generate_legal_moves, make_move, validate_move, BaseBoard, Board, CastlingRights, ChessError, File, Logic, Move,
    Piece, PieceKind, Position, Side,
};

const FILES: [File; 8] = [File::A, File::B, File::C, File::D, File::E, File::F, File::G, File::H];

fn file_idx(f: File) -> usize {
    FILES.iter().position(|&g| g == f).unwrap()
}

fn idx(f: File, rank: i8) -> usize {
    (rank as usize - 1) * 8 + file_idx(f)
}

fn all_rights() -> CastlingRights {
    CastlingRights { white_kingside: true, white_queenside: true, black_kingside: true, black_queenside: true }
}

fn no_rights() -> CastlingRights {
    CastlingRights { white_kingside: false, white_queenside: false, black_kingside: false, black_queenside: false }
}

fn board(pieces: &[(File, i8, Piece)], side: Side, rights: CastlingRights, ep: Option<Position>) -> BaseBoard {
    let mut cells = [Piece::Empty; 64];
    for &(f, r, p) in pieces {
        cells[idx(f, r)] = p;
    }
    BaseBoard::from_parts(cells, side, rights, ep, 0)
}

fn at(b: &BaseBoard, f: File, r: i8) -> Piece {
    b.occupant_at(Position(f, r)).unwrap()
}

fn mv(piece: Piece, f1: File, r1: i8, f2: File, r2: i8, captured: bool) -> Move {
    Move { piece, start_pos: Position(f1, r1), end_pos: Position(f2, r2), captured, promotion: None }
}

#[test]
fn initial_position_squares() {
    let b = BaseBoard::new();
    let back = |s: Side| {
        [
            Piece::Rook(s),
            Piece::Knight(s),
            Piece::Bishop(s),
            Piece::Queen(s),
            Piece::King(s),
            Piece::Bishop(s),
            Piece::Knight(s),
            Piece::Rook(s),
        ]
    };
    for (i, &f) in FILES.iter().enumerate() {
        assert_eq!(at(&b, f, 1), back(Side::White)[i]);
        assert_eq!(at(&b, f, 2), Piece::Pawn(Side::White));
        for r in 3..=6 {
            assert_eq!(at(&b, f, r), Piece::Empty);
        }
        assert_eq!(at(&b, f, 7), Piece::Pawn(Side::Black));
        assert_eq!(at(&b, f, 8), back(Side::Black)[i]);
    }
    assert_eq!(b.side_to_move(), Side::White);
    assert_eq!(b.castling_rights(), all_rights());
    assert_eq!(b.en_passant_target(), None);
    assert_eq!(b.halfmove_clock(), 0);
}

#[test]
fn grid_rows_start_at_rank_eight() {
    let g = BaseBoard::new().as_array();
    assert_eq!(g[0][4], Piece::King(Side::Black));
    assert_eq!(g[0][3], Piece::Queen(Side::Black));
    assert_eq!(g[1][0], Piece::Pawn(Side::Black));
    assert_eq!(g[4][4], Piece::Empty);
    assert_eq!(g[6][7], Piece::Pawn(Side::White));
    assert_eq!(g[7][4], Piece::King(Side::White));
    assert_eq!(g[7][0], Piece::Rook(Side::White));
}

#[test]
fn inspection_is_repeatable() {
    let b = BaseBoard::new();
    let first = b.as_array();
    let p = b.occupant_at(Position(File::G, 8));
    assert_eq!(b.occupant_at(Position(File::G, 8)), p);
    assert_eq!(p, Ok(Piece::Knight(Side::Black)));
    assert_eq!(b.as_array(), first);
}

#[test]
fn occupant_out_of_bounds() {
    let b = BaseBoard::new();
    assert_eq!(b.occupant_at(Position(File::A, 0)), Err(ChessError::OutOfBounds));
    assert_eq!(b.occupant_at(Position(File::H, 9)), Err(ChessError::OutOfBounds));
    assert_eq!(b.occupant_at(Position(File::C, -3)), Err(ChessError::OutOfBounds));
}

#[test]
fn rejects_empty_or_foreign_start() {
    let b = BaseBoard::new();
    assert!(!validate_move(&b, &mv(Piece::Empty, File::E, 3, File::E, 4, false)));
    assert!(!validate_move(&b, &mv(Piece::Pawn(Side::Black), File::E, 7, File::E, 5, false)));
    assert!(!validate_move(&b, &mv(Piece::Knight(Side::White), File::E, 2, File::E, 4, false)));
    assert!(!validate_move(&b, &mv(Piece::Pawn(Side::White), File::E, 2, File::E, 9, false)));
    assert!(validate_move(&b, &mv(Piece::Pawn(Side::White), File::E, 2, File::E, 4, false)));
}

#[test]
fn double_step_sets_and_clears_en_passant() {
    let b = BaseBoard::new();
    let after = make_move(&b, &mv(Piece::Pawn(Side::White), File::E, 2, File::E, 4, false)).unwrap();
    assert_eq!(after.en_passant_target(), Some(Position(File::E, 3)));
    assert_eq!(after.side_to_move(), Side::Black);
    assert_eq!(at(&after, File::E, 4), Piece::Pawn(Side::White));
    assert_eq!(at(&after, File::E, 2), Piece::Empty);
    let next = make_move(&after, &mv(Piece::Knight(Side::Black), File::B, 8, File::C, 6, false)).unwrap();
    assert_eq!(next.en_passant_target(), None);
    assert_eq!(next.halfmove_clock(), 1);
    let single = make_move(&b, &mv(Piece::Pawn(Side::White), File::D, 2, File::D, 3, false)).unwrap();
    assert_eq!(single.en_passant_target(), None);
}

#[test]
fn double_step_needs_both_squares_empty() {
    let kings = [(File::E, 1, Piece::King(Side::White)), (File::E, 8, Piece::King(Side::Black))];
    let step = mv(Piece::Pawn(Side::White), File::C, 2, File::C, 4, false);
    let mut near = kings.to_vec();
    near.push((File::C, 2, Piece::Pawn(Side::White)));
    near.push((File::C, 3, Piece::Knight(Side::Black)));
    assert!(!validate_move(&board(&near, Side::White, no_rights(), None), &step));
    let mut far = kings.to_vec();
    far.push((File::C, 2, Piece::Pawn(Side::White)));
    far.push((File::C, 4, Piece::Knight(Side::Black)));
    assert!(!validate_move(&board(&far, Side::White, no_rights(), None), &step));
    let mut open = kings.to_vec();
    open.push((File::C, 2, Piece::Pawn(Side::White)));
    assert!(validate_move(&board(&open, Side::White, no_rights(), None), &step));
    let mut late = kings.to_vec();
    late.push((File::C, 3, Piece::Pawn(Side::White)));
    let from_third = mv(Piece::Pawn(Side::White), File::C, 3, File::C, 5, false);
    assert!(!validate_move(&board(&late, Side::White, no_rights(), None), &from_third));
}

#[test]
fn pinned_piece_cannot_leave_the_line() {
    let b = board(
        &[
            (File::E, 1, Piece::King(Side::White)),
            (File::E, 2, Piece::Rook(Side::White)),
            (File::E, 8, Piece::Rook(Side::Black)),
            (File::A, 8, Piece::King(Side::Black)),
        ],
        Side::White,
        no_rights(),
        None,
    );
    assert!(!validate_move(&b, &mv(Piece::Rook(Side::White), File::E, 2, File::D, 2, false)));
    assert!(validate_move(&b, &mv(Piece::Rook(Side::White), File::E, 2, File::E, 5, false)));
    assert!(validate_move(&b, &mv(Piece::Rook(Side::White), File::E, 2, File::E, 8, true)));
    assert!(!validate_move(&b, &mv(Piece::King(Side::White), File::E, 1, File::E, 2, false)));
    assert!(validate_move(&b, &mv(Piece::King(Side::White), File::E, 1, File::D, 2, false)));
}

#[test]
fn starting_position_has_twenty_moves() {
    let moves = generate_legal_moves(&BaseBoard::new());
    assert_eq!(moves.len(), 20);
    let pawns = moves.iter().filter(|m| m.piece == Piece::Pawn(Side::White)).count();
    let knights = moves.iter().filter(|m| m.piece == Piece::Knight(Side::White)).count();
    assert_eq!(pawns, 16);
    assert_eq!(knights, 4);
    assert!(moves.iter().all(|m| validate_move(&BaseBoard::new(), m)));
}

fn castle_board(extra: &[(File, i8, Piece)]) -> BaseBoard {
    let mut pieces = vec![
        (File::E, 1, Piece::King(Side::White)),
        (File::H, 1, Piece::Rook(Side::White)),
        (File::A, 1, Piece::Rook(Side::White)),
        (File::H, 8, Piece::King(Side::Black)),
    ];
    pieces.extend_from_slice(extra);
    board(&pieces, Side::White, all_rights(), None)
}

fn short_castle() -> Move {
    mv(Piece::King(Side::White), File::E, 1, File::G, 1, false)
}

fn long_castle() -> Move {
    mv(Piece::King(Side::White), File::E, 1, File::C, 1, false)
}

#[test]
fn castling_when_clear() {
    let b = castle_board(&[]);
    assert!(validate_move(&b, &short_castle()));
    assert!(validate_move(&b, &long_castle()));
    let after = make_move(&b, &short_castle()).unwrap();
    assert_eq!(at(&after, File::G, 1), Piece::King(Side::White));
    assert_eq!(at(&after, File::F, 1), Piece::Rook(Side::White));
    assert_eq!(at(&after, File::E, 1), Piece::Empty);
    assert_eq!(at(&after, File::H, 1), Piece::Empty);
    assert!(!after.castling_rights().white_kingside);
    assert!(!after.castling_rights().white_queenside);
    assert!(after.castling_rights().black_kingside);
    let long = make_move(&b, &long_castle()).unwrap();
    assert_eq!(at(&long, File::C, 1), Piece::King(Side::White));
    assert_eq!(at(&long, File::D, 1), Piece::Rook(Side::White));
    assert_eq!(at(&long, File::A, 1), Piece::Empty);
}

#[test]
fn castling_blocked_by_piece_between() {
    let b = castle_board(&[(File::F, 1, Piece::Bishop(Side::White))]);
    assert!(!validate_move(&b, &short_castle()));
    let q = castle_board(&[(File::B, 1, Piece::Knight(Side::White))]);
    assert!(!validate_move(&q, &long_castle()));
    assert!(validate_move(&q, &short_castle()));
}

#[test]
fn castling_rejected_under_attack() {
    let in_check = castle_board(&[(File::E, 5, Piece::Rook(Side::Black))]);
    assert!(!validate_move(&in_check, &short_castle()));
    let through = castle_board(&[(File::F, 5, Piece::Rook(Side::Black))]);
    assert!(!validate_move(&through, &short_castle()));
    let landing = castle_board(&[(File::G, 5, Piece::Rook(Side::Black))]);
    assert!(!validate_move(&landing, &short_castle()));
    let long_through = castle_board(&[(File::D, 5, Piece::Rook(Side::Black))]);
    assert!(!validate_move(&long_through, &long_castle()));
    assert!(validate_move(&long_through, &short_castle()));
}

#[test]
fn castling_needs_the_right() {
    let pieces = vec![
        (File::E, 1, Piece::King(Side::White)),
        (File::H, 1, Piece::Rook(Side::White)),
        (File::H, 8, Piece::King(Side::Black)),
    ];
    let rights = CastlingRights { white_kingside: false, ..all_rights() };
    let b = board(&pieces, Side::White, rights, None);
    assert!(!validate_move(&b, &short_castle()));
}

#[test]
fn capture_moves_one_piece_and_removes_one() {
    let b = board(
        &[
            (File::E, 1, Piece::King(Side::White)),
            (File::A, 1, Piece::Rook(Side::White)),
            (File::A, 7, Piece::Pawn(Side::Black)),
            (File::H, 8, Piece::King(Side::Black)),
        ],
        Side::White,
        no_rights(),
        None,
    );
    let b = BaseBoard::from_parts(b.squares(), Side::White, no_rights(), None, 7);
    let take = mv(Piece::Rook(Side::White), File::A, 1, File::A, 7, true);
    assert!(validate_move(&b, &take));
    assert!(!validate_move(&b, &mv(Piece::Rook(Side::White), File::A, 1, File::A, 7, false)));
    let after = make_move(&b, &take).unwrap();
    let before_cells = b.squares();
    let after_cells = after.squares();
    for i in 0..64 {
        if i == idx(File::A, 1) {
            assert_eq!(after_cells[i], Piece::Empty);
        } else if i == idx(File::A, 7) {
            assert_eq!(after_cells[i], Piece::Rook(Side::White));
        } else {
            assert_eq!(after_cells[i], before_cells[i]);
        }
    }
    assert_eq!(after.side_to_move(), Side::Black);
    assert_eq!(after.halfmove_clock(), 0);
    let quiet = make_move(&b, &mv(Piece::Rook(Side::White), File::A, 1, File::A, 4, false)).unwrap();
    assert_eq!(quiet.halfmove_clock(), 8);
}

#[test]
fn en_passant_capture() {
    let b = board(
        &[
            (File::E, 1, Piece::King(Side::White)),
            (File::E, 5, Piece::Pawn(Side::White)),
            (File::D, 7, Piece::Pawn(Side::Black)),
            (File::E, 8, Piece::King(Side::Black)),
        ],
        Side::Black,
        no_rights(),
        None,
    );
    let after = make_move(&b, &mv(Piece::Pawn(Side::Black), File::D, 7, File::D, 5, false)).unwrap();
    assert_eq!(after.en_passant_target(), Some(Position(File::D, 6)));
    let ep = mv(Piece::Pawn(Side::White), File::E, 5, File::D, 6, true);
    assert!(validate_move(&after, &ep));
    assert!(!validate_move(&after, &Move { captured: false, ..ep }));
    let done = make_move(&after, &ep).unwrap();
    assert_eq!(at(&done, File::D, 6), Piece::Pawn(Side::White));
    assert_eq!(at(&done, File::D, 5), Piece::Empty);
    assert_eq!(at(&done, File::E, 5), Piece::Empty);
    assert_eq!(done.halfmove_clock(), 0);
    let stale = BaseBoard::from_parts(after.squares(), Side::White, no_rights(), None, 0);
    assert!(!validate_move(&stale, &ep));
}

#[test]
fn promotion_choice_required() {
    let b = board(
        &[
            (File::E, 1, Piece::King(Side::White)),
            (File::A, 7, Piece::Pawn(Side::White)),
            (File::H, 6, Piece::King(Side::Black)),
        ],
        Side::White,
        no_rights(),
        None,
    );
    let plain = mv(Piece::Pawn(Side::White), File::A, 7, File::A, 8, false);
    assert!(!validate_move(&b, &plain));
    assert!(!validate_move(&b, &Move { promotion: Some(PieceKind::King), ..plain }));
    assert!(!validate_move(&b, &Move { promotion: Some(PieceKind::Pawn), ..plain }));
    let queen = Move { promotion: Some(PieceKind::Queen), ..plain };
    assert!(validate_move(&b, &queen));
    let after = make_move(&b, &queen).unwrap();
    assert_eq!(at(&after, File::A, 8), Piece::Queen(Side::White));
    let moves = generate_legal_moves(&b);
    let promotions = moves.iter().filter(|m| m.promotion.is_some()).count();
    assert_eq!(promotions, 4);
    assert_eq!(moves.len(), 9);
}

#[test]
fn illegal_move_is_reported() {
    let b = BaseBoard::new();
    let bad = mv(Piece::Pawn(Side::White), File::E, 2, File::E, 5, false);
    assert_eq!(make_move(&b, &bad).unwrap_err(), ChessError::IllegalMove);
    let rook_jump = mv(Piece::Rook(Side::White), File::A, 1, File::A, 3, false);
    assert!(!validate_move(&b, &rook_jump));
}

#[test]
fn trait_methods_agree() {
    let b = BaseBoard::new();
    let good = mv(Piece::Knight(Side::White), File::G, 1, File::F, 3, false);
    assert!(good.validate_move(b));
    let after = Logic::make_move(&good, b).unwrap();
    assert_eq!(at(&after, File::F, 3), Piece::Knight(Side::White));
    assert_eq!(after.halfmove_clock(), 1);
    let bad = mv(Piece::Knight(Side::White), File::G, 1, File::G, 3, false);
    assert!(!bad.validate_move(b));
    assert_eq!(Logic::make_move(&bad, b).unwrap_err(), ChessError::IllegalMove);
}

#[test]
fn checkmate_leaves_no_moves() {
    let b = board(
        &[
            (File::H, 8, Piece::King(Side::Black)),
            (File::G, 7, Piece::Queen(Side::White)),
            (File::F, 6, Piece::King(Side::White)),
        ],
        Side::Black,
        no_rights(),
        None,
    );
    assert!(generate_legal_moves(&b).is_empty());
    assert!(!validate_move(&b, &mv(Piece::King(Side::Black), File::H, 8, File::G, 7, true)));
}
