use vstd::prelude::*;
use crate::structures::{
    cell, cell_at, cell_index, file_of, file_index, file_to_index, home_rank, index_to_file, in_bounds, is_castle_shape, make_piece, owned_by, opponent,
    pos_file, pos_rank, pos_valid, side_of, side_of_piece, BaseBoard, BoardView, CastlingRights, ChessError, File,
    Move, Piece, PieceKind, Position, Side,
};

verus! {

pub open spec fn abs(x: int) -> int {
    if x < 0 {
        -x
    } else {
        x
    }
}

/// Number of king steps between two squares on one line.
pub open spec fn distance(df: int, dr: int) -> int {
    if abs(df) >= abs(dr) {
        abs(df)
    } else {
        abs(dr)
    }
}

/// The coordinate `k` steps from `a` in the direction of the sign of `d`.
pub open spec fn step(a: int, d: int, k: int) -> int {
    if d > 0 {
        a + k
    } else if d < 0 {
        a - k
    } else {
        a
    }
}

pub open spec fn straight(df: int, dr: int) -> bool {
    (df == 0) != (dr == 0)
}

pub open spec fn diagonal(df: int, dr: int) -> bool {
    df != 0 && (df == dr || df == -dr)
}

pub open spec fn knight_jump(df: int, dr: int) -> bool {
    (abs(df) == 1 && abs(dr) == 2) || (abs(df) == 2 && abs(dr) == 1)
}

pub open spec fn king_step(df: int, dr: int) -> bool {
    distance(df, dr) == 1
}

/// The rank direction in which a side's pawns advance.
pub open spec fn forward(s: Side) -> int {
    match s {
        Side::White => 1,
        Side::Black => -1,
    }
}

/// Every square strictly between two squares on one line is empty.
pub open spec fn path_clear(v: BoardView, f1: int, r1: int, f2: int, r2: int) -> bool {
    forall|k: int|
        1 <= k < distance(f2 - f1, r2 - r1) ==> #[trigger] cell(v, step(f1, f2 - f1, k), step(r1, r2 - r1, k))
            == Piece::Empty
}

/// The piece on the first square could capture on the second square, by the movement of its
/// kind alone (what stands on the second square and the safety of its own king aside).
pub open spec fn attacks(v: BoardView, f1: int, r1: int, f2: int, r2: int) -> bool {
    let df = f2 - f1;
    let dr = r2 - r1;
    match cell(v, f1, r1) {
        Piece::Pawn(s) => dr == forward(s) && abs(df) == 1,
        Piece::Knight(_) => knight_jump(df, dr),
        Piece::Bishop(_) => diagonal(df, dr) && path_clear(v, f1, r1, f2, r2),
        Piece::Rook(_) => straight(df, dr) && path_clear(v, f1, r1, f2, r2),
        Piece::Queen(_) => (diagonal(df, dr) || straight(df, dr)) && path_clear(v, f1, r1, f2, r2),
        Piece::King(_) => king_step(df, dr),
        Piece::Empty => false,
    }
}

/// A piece of side `by` on square (f1, r1) attacks square (f, r).
pub open spec fn attacker(v: BoardView, f1: int, r1: int, f: int, r: int, by: Side) -> bool {
    in_bounds(f1, r1) && owned_by(cell(v, f1, r1), by) && attacks(v, f1, r1, f, r)
}

/// Some piece of side `by` attacks square (f, r).
pub open spec fn attacked(v: BoardView, f: int, r: int, by: Side) -> bool {
    exists|f1: int, r1: int| #[trigger] attacker(v, f1, r1, f, r, by)
}

/// A king of side `s` stands on (f, r) and is attacked.
pub open spec fn king_attacked_at(v: BoardView, f: int, r: int, s: Side) -> bool {
    in_bounds(f, r) && cell(v, f, r) == Piece::King(s) && attacked(v, f, r, opponent(s))
}

/// The king of side `s` is attacked.
pub open spec fn in_check(v: BoardView, s: Side) -> bool {
    exists|f: int, r: int| #[trigger] king_attacked_at(v, f, r, s)
}


/// Both squares of a move lie on the board.
pub open spec fn move_in_bounds(m: Move) -> bool {
    pos_valid(m.start_pos) && pos_valid(m.end_pos)
}

/// File and rank offsets of a move.
pub open spec fn file_delta(m: Move) -> int {
    pos_file(m.end_pos) - pos_file(m.start_pos)
}

pub open spec fn rank_delta(m: Move) -> int {
    pos_rank(m.end_pos) - pos_rank(m.start_pos)
}

/// Zero-based rank on which a side's pawns promote.
pub open spec fn last_rank(s: Side) -> int {
    match s {
        Side::White => 7,
        Side::Black => 0,
    }
}

/// Zero-based rank on which a side's pawns start.
pub open spec fn pawn_start_rank(s: Side) -> int {
    match s {
        Side::White => 1,
        Side::Black => 6,
    }
}

/// A pawn steps diagonally onto the en-passant target square.
pub open spec fn is_en_passant(v: BoardView, m: Move) -> bool {
    match m.piece {
        Piece::Pawn(s) => abs(file_delta(m)) == 1 && rank_delta(m) == forward(s) && cell_at(v, m.end_pos)
            == Piece::Empty && v.en_passant == Some(m.end_pos),
        _ => false,
    }
}

/// The move takes a piece: its end square is occupied, or it captures en passant.
pub open spec fn capture_flag(v: BoardView, m: Move) -> bool {
    cell_at(v, m.end_pos) != Piece::Empty || is_en_passant(v, m)
}

pub open spec fn promotable(k: PieceKind) -> bool {
    k == PieceKind::Knight || k == PieceKind::Bishop || k == PieceKind::Rook || k == PieceKind::Queen
}

/// A pawn reaching its last rank names a knight, bishop, rook or queen; no other move names one.
pub open spec fn promotion_ok(m: Move) -> bool {
    match m.piece {
        Piece::Pawn(s) => if pos_rank(m.end_pos) == last_rank(s) {
            m.promotion is Some && promotable(m.promotion->0)
        } else {
            m.promotion is None
        },
        _ => m.promotion is None,
    }
}

/// The movement of a pawn of side `s`.
pub open spec fn pawn_geometry(v: BoardView, m: Move, s: Side) -> bool {
    let f1 = pos_file(m.start_pos);
    let r1 = pos_rank(m.start_pos);
    let f2 = pos_file(m.end_pos);
    let r2 = pos_rank(m.end_pos);
    ||| f2 == f1 && r2 - r1 == forward(s) && cell(v, f2, r2) == Piece::Empty
    ||| f2 == f1 && r2 - r1 == 2 * forward(s) && r1 == pawn_start_rank(s) && cell(v, f1, r1 + forward(s))
        == Piece::Empty && cell(v, f2, r2) == Piece::Empty
    ||| abs(f2 - f1) == 1 && r2 - r1 == forward(s) && owned_by(cell(v, f2, r2), opponent(s))
    ||| is_en_passant(v, m) && cell(v, f2, r1) == Piece::Pawn(opponent(s))
}

/// The movement of the moving piece's kind, with the squares it passes over empty.
pub open spec fn geometry_ok(v: BoardView, m: Move) -> bool {
    let f1 = pos_file(m.start_pos);
    let r1 = pos_rank(m.start_pos);
    let f2 = pos_file(m.end_pos);
    let r2 = pos_rank(m.end_pos);
    let df = f2 - f1;
    let dr = r2 - r1;
    match m.piece {
        Piece::Pawn(s) => pawn_geometry(v, m, s),
        Piece::Knight(_) => knight_jump(df, dr),
        Piece::Bishop(_) => diagonal(df, dr) && path_clear(v, f1, r1, f2, r2),
        Piece::Rook(_) => straight(df, dr) && path_clear(v, f1, r1, f2, r2),
        Piece::Queen(_) => (diagonal(df, dr) || straight(df, dr)) && path_clear(v, f1, r1, f2, r2),
        Piece::King(_) => king_step(df, dr),
        Piece::Empty => false,
    }
}

/// The castling right of a side on one wing.
pub open spec fn castle_right(c: CastlingRights, s: Side, kingside: bool) -> bool {
    match s {
        Side::White => if kingside {
            c.white_kingside
        } else {
            c.white_queenside
        },
        Side::Black => if kingside {
            c.black_kingside
        } else {
            c.black_queenside
        },
    }
}

/// The conditions of castling for the side to move, the move having the shape of castling:
/// the right is held, the rook stands in its corner, the squares between king and rook are
/// empty, and the king is not attacked on its start square, the square it passes or the
/// square it lands on.
pub open spec fn castle_ok(v: BoardView, m: Move) -> bool {
    let s = v.side_to_move;
    let r = pos_rank(m.start_pos);
    let opp = opponent(s);
    if m.end_pos.0 == File::G {
        &&& castle_right(v.castling, s, true)
        &&& cell(v, 7, r) == Piece::Rook(s)
        &&& cell(v, 5, r) == Piece::Empty
        &&& cell(v, 6, r) == Piece::Empty
        &&& !attacked(v, 4, r, opp)
        &&& !attacked(v, 5, r, opp)
        &&& !attacked(v, 6, r, opp)
    } else {
        &&& castle_right(v.castling, s, false)
        &&& cell(v, 0, r) == Piece::Rook(s)
        &&& cell(v, 1, r) == Piece::Empty
        &&& cell(v, 2, r) == Piece::Empty
        &&& cell(v, 3, r) == Piece::Empty
        &&& !attacked(v, 4, r, opp)
        &&& !attacked(v, 3, r, opp)
        &&& !attacked(v, 2, r, opp)
    }
}

/// The piece that stands on the end square after the move.
pub open spec fn landing_piece(v: BoardView, m: Move) -> Piece {
    match m.promotion {
        Some(k) => make_piece(k, v.side_to_move),
        None => m.piece,
    }
}

/// The 64 squares after the move.
pub open spec fn apply_cells(v: BoardView, m: Move) -> Seq<Piece> {
    let a = cell_index(pos_file(m.start_pos), pos_rank(m.start_pos));
    let b = cell_index(pos_file(m.end_pos), pos_rank(m.end_pos));
    let r = pos_rank(m.start_pos);
    if is_castle_shape(m) {
        if m.end_pos.0 == File::G {
            v.cells.update(a, Piece::Empty).update(b, m.piece).update(cell_index(7, r), Piece::Empty).update(
                cell_index(5, r),
                cell(v, 7, r),
            )
        } else {
            v.cells.update(a, Piece::Empty).update(b, m.piece).update(cell_index(0, r), Piece::Empty).update(
                cell_index(3, r),
                cell(v, 0, r),
            )
        }
    } else {
        let moved = v.cells.update(a, Piece::Empty).update(b, landing_piece(v, m));
        if is_en_passant(v, m) {
            moved.update(cell_index(pos_file(m.end_pos), r), Piece::Empty)
        } else {
            moved
        }
    }
}

/// The move starts or ends on the square at zero-based file `f` and rank `r`.
pub open spec fn touches(m: Move, f: int, r: int) -> bool {
    (pos_file(m.start_pos) == f && pos_rank(m.start_pos) == r) || (pos_file(m.end_pos) == f && pos_rank(
        m.end_pos,
    ) == r)
}

/// Castling rights after the move: a move from or onto a king's or rook's start square
/// revokes the rights that depend on it.
pub open spec fn apply_castling(c: CastlingRights, m: Move) -> CastlingRights {
    CastlingRights {
        white_kingside: c.white_kingside && !touches(m, 4, 0) && !touches(m, 7, 0),
        white_queenside: c.white_queenside && !touches(m, 4, 0) && !touches(m, 0, 0),
        black_kingside: c.black_kingside && !touches(m, 4, 7) && !touches(m, 7, 7),
        black_queenside: c.black_queenside && !touches(m, 4, 7) && !touches(m, 0, 7),
    }
}

/// A pawn advances two squares.
pub open spec fn is_double_step(m: Move) -> bool {
    m.piece is Pawn && abs(rank_delta(m)) == 2
}

/// The en-passant target after the move: the skipped square of a two-square pawn advance.
pub open spec fn apply_en_passant(m: Move) -> Option<Position> {
    if is_double_step(m) {
        Some(Position(m.end_pos.0, ((m.start_pos.1 as int + m.end_pos.1 as int) / 2) as i8))
    } else {
        None
    }
}

/// The half-move clock after the move: reset by a pawn move or a capture, else one more.
pub open spec fn apply_clock(v: BoardView, m: Move) -> int {
    if m.piece is Pawn || capture_flag(v, m) {
        0
    } else {
        v.halfmove_clock + 1
    }
}

/// The position after the move.
pub open spec fn apply(v: BoardView, m: Move) -> BoardView {
    BoardView {
        cells: apply_cells(v, m),
        side_to_move: opponent(v.side_to_move),
        castling: apply_castling(v.castling, m),
        en_passant: apply_en_passant(m),
        halfmove_clock: apply_clock(v, m),
    }
}

/// The position after the move, as far as attacks go: the squares change, nothing else.
pub open spec fn scratch(v: BoardView, m: Move) -> BoardView {
    BoardView { cells: apply_cells(v, m), ..v }
}

/// Everything but the safety of the mover's king: the squares are on the board, the move
/// names the piece on its start square, which belongs to the side to move, does not end on
/// a piece of that side, says truly whether it captures, names a promotion exactly when one
/// is due, and follows the movement of its kind or the conditions of castling.
pub open spec fn pseudo_legal(v: BoardView, m: Move) -> bool {
    let s = v.side_to_move;
    &&& v.cells.len() == 64
    &&& move_in_bounds(m)
    &&& m.piece == cell_at(v, m.start_pos)
    &&& owned_by(m.piece, s)
    &&& !owned_by(cell_at(v, m.end_pos), s)
    &&& m.captured == capture_flag(v, m)
    &&& promotion_ok(m)
    &&& if is_castle_shape(m) {
        castle_ok(v, m)
    } else {
        geometry_ok(v, m)
    }
}

/// A fully legal move: pseudo-legal, and the mover's king is not attacked afterwards.
pub open spec fn legal(v: BoardView, m: Move) -> bool {
    pseudo_legal(v, m) && !in_check(scratch(v, m), v.side_to_move)
}

fn forward_of(s: Side) -> (r: i32)
    ensures
        r as int == forward(s),
{
    match s {
        Side::White => 1,
        Side::Black => -1,
    }
}

fn abs_i32(x: i32) -> (r: i32)
    requires
        -100 < x < 100,
    ensures
        r as int == abs(x as int),
{
    if x < 0 {
        -x
    } else {
        x
    }
}

fn occupant(b: &BaseBoard, f: i32, r: i32) -> (p: Piece)
    requires
        in_bounds(f as int, r as int),
    ensures
        p == cell(b@, f as int, r as int),
{
    b.piece_at(f as usize, r as usize)
}

/// Whether every square strictly between two squares on one line is empty.
fn is_path_clear(b: &BaseBoard, f1: i32, r1: i32, f2: i32, r2: i32) -> (res: bool)
    requires
        in_bounds(f1 as int, r1 as int),
        in_bounds(f2 as int, r2 as int),
        straight(f2 - f1, r2 - r1) || diagonal(f2 - f1, r2 - r1),
    ensures
        res == path_clear(b@, f1 as int, r1 as int, f2 as int, r2 as int),
{
    let df = f2 - f1;
    let dr = r2 - r1;
    let sf: i32 = if df > 0 { 1 } else if df < 0 { -1 } else { 0 };
    let sr: i32 = if dr > 0 { 1 } else if dr < 0 { -1 } else { 0 };
    let adf = abs_i32(df);
    let adr = abs_i32(dr);
    let n: i32 = if adf >= adr { adf } else { adr };
    let mut k: i32 = 1;
    let mut f: i32 = f1 + sf;
    let mut r: i32 = r1 + sr;
    while k < n
        invariant
            1 <= k,
            n as int == distance(df as int, dr as int),
            f as int == step(f1 as int, df as int, k as int),
            r as int == step(r1 as int, dr as int, k as int),
            in_bounds(f1 as int, r1 as int),
            in_bounds(f2 as int, r2 as int),
            df == f2 - f1,
            dr == r2 - r1,
            straight(df as int, dr as int) || diagonal(df as int, dr as int),
            sf as int == (if df > 0 { 1int } else if df < 0 { -1int } else { 0int }),
            sr as int == (if dr > 0 { 1int } else if dr < 0 { -1int } else { 0int }),
            forall|j: int|
                1 <= j < k ==> #[trigger] cell(b@, step(f1 as int, df as int, j), step(r1 as int, dr as int, j))
                    == Piece::Empty,
        decreases n - k,
    {
        if occupant(b, f, r) != Piece::Empty {
            return false;
        }
        k = k + 1;
        f = f + sf;
        r = r + sr;
    }
    true
}

/// Whether the piece on (f1, r1) attacks (f2, r2), as `attacks` states.
fn piece_attacks(b: &BaseBoard, f1: i32, r1: i32, f2: i32, r2: i32) -> (res: bool)
    requires
        in_bounds(f1 as int, r1 as int),
        in_bounds(f2 as int, r2 as int),
    ensures
        res == attacks(b@, f1 as int, r1 as int, f2 as int, r2 as int),
{
    let df = f2 - f1;
    let dr = r2 - r1;
    let adf = abs_i32(df);
    let adr = abs_i32(dr);
    let is_straight = (df == 0) != (dr == 0);
    let is_diagonal = df != 0 && (df == dr || df == -dr);
    match occupant(b, f1, r1) {
        Piece::Pawn(s) => dr == forward_of(s) && adf == 1,
        Piece::Knight(_) => (adf == 1 && adr == 2) || (adf == 2 && adr == 1),
        Piece::Bishop(_) => is_diagonal && is_path_clear(b, f1, r1, f2, r2),
        Piece::Rook(_) => is_straight && is_path_clear(b, f1, r1, f2, r2),
        Piece::Queen(_) => (is_diagonal || is_straight) && is_path_clear(b, f1, r1, f2, r2),
        Piece::King(_) => (adf <= 1 && adr <= 1) && (adf == 1 || adr == 1),
        Piece::Empty => false,
    }
}

/// Whether some piece of side `by` attacks square (f, r).
pub fn is_attacked(b: &BaseBoard, f: i32, r: i32, by: Side) -> (res: bool)
    requires
        in_bounds(f as int, r as int),
    ensures
        res == attacked(b@, f as int, r as int, by),
{
    let mut r1: i32 = 0;
    while r1 < 8
        invariant
            0 <= r1 <= 8,
            in_bounds(f as int, r as int),
            forall|g: int, q: int| 0 <= q < r1 ==> !#[trigger] attacker(b@, g, q, f as int, r as int, by),
        decreases 8 - r1,
    {
        let mut f1: i32 = 0;
        while f1 < 8
            invariant
                0 <= f1 <= 8,
                0 <= r1 < 8,
                in_bounds(f as int, r as int),
                forall|g: int, q: int| 0 <= q < r1 ==> !#[trigger] attacker(b@, g, q, f as int, r as int, by),
                forall|g: int| 0 <= g < f1 ==> !#[trigger] attacker(b@, g, r1 as int, f as int, r as int, by),
            decreases 8 - f1,
        {
            let p = occupant(b, f1, r1);
            if side_of_piece(p) == Some(by) && piece_attacks(b, f1, r1, f, r) {
                assert(attacker(b@, f1 as int, r1 as int, f as int, r as int, by));
                return true;
            }
            f1 = f1 + 1;
        }
        r1 = r1 + 1;
    }
    false
}

/// Whether the king of side `s` is attacked.
pub fn is_in_check(b: &BaseBoard, s: Side) -> (res: bool)
    ensures
        res == in_check(b@, s),
{
    let by = match s {
        Side::White => Side::Black,
        Side::Black => Side::White,
    };
    let mut r: i32 = 0;
    while r < 8
        invariant
            0 <= r <= 8,
            by == opponent(s),
            forall|g: int, q: int| 0 <= q < r ==> !#[trigger] king_attacked_at(b@, g, q, s),
        decreases 8 - r,
    {
        let mut f: i32 = 0;
        while f < 8
            invariant
                0 <= f <= 8,
                0 <= r < 8,
                by == opponent(s),
                forall|g: int, q: int| 0 <= q < r ==> !#[trigger] king_attacked_at(b@, g, q, s),
                forall|g: int| 0 <= g < f ==> !#[trigger] king_attacked_at(b@, g, r as int, s),
            decreases 8 - f,
        {
            if occupant(b, f, r) == Piece::King(s) && is_attacked(b, f, r, by) {
                assert(king_attacked_at(b@, f as int, r as int, s));
                return true;
            }
            f = f + 1;
        }
        r = r + 1;
    }
    false
}

fn owned(p: Piece, s: Side) -> (r: bool)
    ensures
        r == owned_by(p, s),
{
    match side_of_piece(p) {
        Some(t) => t == s,
        None => false,
    }
}

fn opponent_of(s: Side) -> (r: Side)
    ensures
        r == opponent(s),
{
    match s {
        Side::White => Side::Black,
        Side::Black => Side::White,
    }
}

fn piece_of(k: PieceKind, s: Side) -> (r: Piece)
    ensures
        r == make_piece(k, s),
{
    match k {
        PieceKind::Pawn => Piece::Pawn(s),
        PieceKind::Knight => Piece::Knight(s),
        PieceKind::Bishop => Piece::Bishop(s),
        PieceKind::Rook => Piece::Rook(s),
        PieceKind::Queen => Piece::Queen(s),
        PieceKind::King => Piece::King(s),
    }
}

/// Zero-based coordinates of a move's squares.
struct Coords {
    f1: i32,
    r1: i32,
    f2: i32,
    r2: i32,
}

impl Coords {
    spec fn of(&self, m: Move) -> bool {
        &&& move_in_bounds(m)
        &&& self.f1 as int == pos_file(m.start_pos)
        &&& self.r1 as int == pos_rank(m.start_pos)
        &&& self.f2 as int == pos_file(m.end_pos)
        &&& self.r2 as int == pos_rank(m.end_pos)
        &&& in_bounds(self.f1 as int, self.r1 as int)
        &&& in_bounds(self.f2 as int, self.r2 as int)
    }
}

fn coords(m: &Move) -> (c: Coords)
    requires
        move_in_bounds(*m),
    ensures
        c.of(*m),
{
    Coords {
        f1: file_to_index(m.start_pos.0) as i32,
        r1: (m.start_pos.1 - 1) as i32,
        f2: file_to_index(m.end_pos.0) as i32,
        r2: (m.end_pos.1 - 1) as i32,
    }
}

fn en_passant_move(b: &BaseBoard, m: &Move, c: &Coords) -> (r: bool)
    requires
        c.of(*m),
    ensures
        r == is_en_passant(b@, *m),
{
    match m.piece {
        Piece::Pawn(s) => {
            let on_target = match b.en_passant_target() {
                Some(p) => p == m.end_pos,
                None => false,
            };
            abs_i32(c.f2 - c.f1) == 1 && c.r2 - c.r1 == forward_of(s) && occupant(b, c.f2, c.r2)
                == Piece::Empty && on_target
        },
        _ => false,
    }
}

fn promotion_valid(m: &Move, c: &Coords) -> (r: bool)
    requires
        c.of(*m),
    ensures
        r == promotion_ok(*m),
{
    let named = match m.promotion {
        Some(k) => match k {
            PieceKind::Knight | PieceKind::Bishop | PieceKind::Rook | PieceKind::Queen => true,
            _ => false,
        },
        None => false,
    };
    let absent = match m.promotion {
        Some(_) => false,
        None => true,
    };
    match m.piece {
        Piece::Pawn(s) => {
            let last: i32 = match s {
                Side::White => 7,
                Side::Black => 0,
            };
            if c.r2 == last {
                named
            } else {
                absent
            }
        },
        _ => absent,
    }
}

fn castle_right_held(cr: CastlingRights, s: Side, kingside: bool) -> (r: bool)
    ensures
        r == castle_right(cr, s, kingside),
{
    match s {
        Side::White => if kingside {
            cr.white_kingside
        } else {
            cr.white_queenside
        },
        Side::Black => if kingside {
            cr.black_kingside
        } else {
            cr.black_queenside
        },
    }
}

fn castle_allowed(b: &BaseBoard, m: &Move, c: &Coords) -> (r: bool)
    requires
        c.of(*m),
    ensures
        r == castle_ok(b@, *m),
{
    let s = b.side_to_move();
    let opp = opponent_of(s);
    let r = c.r1;
    if m.end_pos.0 == File::G {
        castle_right_held(b.castling_rights(), s, true) && occupant(b, 7, r) == Piece::Rook(s) && occupant(b, 5, r)
            == Piece::Empty && occupant(b, 6, r) == Piece::Empty && !is_attacked(b, 4, r, opp) && !is_attacked(
            b,
            5,
            r,
            opp,
        ) && !is_attacked(b, 6, r, opp)
    } else {
        castle_right_held(b.castling_rights(), s, false) && occupant(b, 0, r) == Piece::Rook(s) && occupant(b, 1, r)
            == Piece::Empty && occupant(b, 2, r) == Piece::Empty && occupant(b, 3, r) == Piece::Empty
            && !is_attacked(b, 4, r, opp) && !is_attacked(b, 3, r, opp) && !is_attacked(b, 2, r, opp)
    }
}

fn geometry_valid(b: &BaseBoard, m: &Move, c: &Coords) -> (r: bool)
    requires
        c.of(*m),
    ensures
        r == geometry_ok(b@, *m),
{
    let df = c.f2 - c.f1;
    let dr = c.r2 - c.r1;
    let adf = abs_i32(df);
    let adr = abs_i32(dr);
    let is_straight = (df == 0) != (dr == 0);
    let is_diagonal = df != 0 && (df == dr || df == -dr);
    match m.piece {
        Piece::Pawn(s) => {
            let fw = forward_of(s);
            let opp = opponent_of(s);
            let start: i32 = match s {
                Side::White => 1,
                Side::Black => 6,
            };
            (df == 0 && dr == fw && occupant(b, c.f2, c.r2) == Piece::Empty) || (df == 0 && dr == 2 * fw && c.r1
                == start && occupant(b, c.f1, c.r1 + fw) == Piece::Empty && occupant(b, c.f2, c.r2) == Piece::Empty)
                || (adf == 1 && dr == fw && owned(occupant(b, c.f2, c.r2), opp)) || (en_passant_move(b, m, c)
                && occupant(b, c.f2, c.r1) == Piece::Pawn(opp))
        },
        Piece::Knight(_) => (adf == 1 && adr == 2) || (adf == 2 && adr == 1),
        Piece::Bishop(_) => is_diagonal && is_path_clear(b, c.f1, c.r1, c.f2, c.r2),
        Piece::Rook(_) => is_straight && is_path_clear(b, c.f1, c.r1, c.f2, c.r2),
        Piece::Queen(_) => (is_diagonal || is_straight) && is_path_clear(b, c.f1, c.r1, c.f2, c.r2),
        Piece::King(_) => (adf <= 1 && adr <= 1) && (adf == 1 || adr == 1),
        Piece::Empty => false,
    }
}

/// Whether the move passes every rule but the safety of the mover's king.
pub fn is_pseudo_legal(b: &BaseBoard, m: &Move) -> (r: bool)
    ensures
        r == pseudo_legal(b@, *m),
{
    proof {
        b.lemma_cells_len();
    }
    if m.start_pos.1 < 1 || m.start_pos.1 > 8 || m.end_pos.1 < 1 || m.end_pos.1 > 8 {
        return false;
    }
    let c = coords(m);
    let s = b.side_to_move();
    let here = occupant(b, c.f1, c.r1);
    if here != m.piece || !owned(here, s) {
        return false;
    }
    let target = occupant(b, c.f2, c.r2);
    if owned(target, s) {
        return false;
    }
    let takes = target != Piece::Empty || en_passant_move(b, m, &c);
    if m.captured != takes || !promotion_valid(m, &c) {
        return false;
    }
    if m.castle_shape() {
        castle_allowed(b, m, &c)
    } else {
        geometry_valid(b, m, &c)
    }
}

/// The 64 squares after the move.
fn successor_cells(b: &BaseBoard, m: &Move) -> (r: [Piece; 64])
    requires
        move_in_bounds(*m),
    ensures
        r@ == apply_cells(b@, *m),
{
    let c = coords(m);
    let mut cells = b.squares();
    let a = (c.r1 * 8 + c.f1) as usize;
    let t = (c.r2 * 8 + c.f2) as usize;
    let row = (c.r1 * 8) as usize;
    let ghost v = b@;
    if m.castle_shape() {
        if m.end_pos.0 == File::G {
            let rook = cells[row + 7];
            cells[a] = Piece::Empty;
            cells[t] = m.piece;
            cells[row + 7] = Piece::Empty;
            cells[row + 5] = rook;
        } else {
            let rook = cells[row];
            cells[a] = Piece::Empty;
            cells[t] = m.piece;
            cells[row] = Piece::Empty;
            cells[row + 3] = rook;
        }
    } else {
        let passing = en_passant_move(b, m, &c);
        let landing = match m.promotion {
            Some(k) => piece_of(k, b.side_to_move()),
            None => m.piece,
        };
        cells[a] = Piece::Empty;
        cells[t] = landing;
        if passing {
            cells[row + c.f2 as usize] = Piece::Empty;
        }
    }
    assert(cells@ =~= apply_cells(v, *m));
    cells
}

/// Whether the move is fully legal for the side to move.
pub fn validate_move(board: &BaseBoard, m: &Move) -> (r: bool)
    ensures
        r == legal(board@, *m),
{
    if !is_pseudo_legal(board, m) {
        return false;
    }
    let next = successor_cells(board, m);
    let side = board.side_to_move();
    let trial = BaseBoard::from_parts(
        next,
        side,
        board.castling_rights(),
        board.en_passant_target(),
        board.halfmove_clock(),
    );
    assert(trial@ == scratch(board@, *m));
    !is_in_check(&trial, side)
}

fn touches_square(c: &Coords, f: i32, r: i32) -> (res: bool)
    ensures
        res == ((c.f1 == f && c.r1 == r) || (c.f2 == f && c.r2 == r)),
{
    (c.f1 == f && c.r1 == r) || (c.f2 == f && c.r2 == r)
}

/// The position after a legal move, or `IllegalMove` exactly when the move is not legal.
pub fn make_move(board: &BaseBoard, m: &Move) -> (r: Result<BaseBoard, ChessError>)
    requires
        board@.halfmove_clock < u32::MAX,
    ensures
        match r {
            Ok(next) => legal(board@, *m) && next@ == apply(board@, *m),
            Err(e) => !legal(board@, *m) && e == ChessError::IllegalMove,
        },
{
    if !validate_move(board, m) {
        return Err(ChessError::IllegalMove);
    }
    let c = coords(m);
    let cells = successor_cells(board, m);
    let cr = board.castling_rights();
    let rights = CastlingRights {
        white_kingside: cr.white_kingside && !touches_square(&c, 4, 0) && !touches_square(&c, 7, 0),
        white_queenside: cr.white_queenside && !touches_square(&c, 4, 0) && !touches_square(&c, 0, 0),
        black_kingside: cr.black_kingside && !touches_square(&c, 4, 7) && !touches_square(&c, 7, 7),
        black_queenside: cr.black_queenside && !touches_square(&c, 4, 7) && !touches_square(&c, 0, 7),
    };
    let pawn = match m.piece {
        Piece::Pawn(_) => true,
        _ => false,
    };
    let target = occupant(board, c.f2, c.r2);
    let takes = target != Piece::Empty || en_passant_move(board, m, &c);
    let skipped = if pawn && abs_i32(c.r2 - c.r1) == 2 {
        Some(Position(m.end_pos.0, (m.start_pos.1 + m.end_pos.1) / 2))
    } else {
        None
    };
    let clock = if pawn || takes {
        0
    } else {
        board.halfmove_clock() + 1
    };
    let next = BaseBoard::from_parts(cells, opponent_of(board.side_to_move()), rights, skipped, clock);
    assert(next@ == apply(board@, *m));
    Ok(next)
}

/// The move starts on square (f1, r1) and ends on square (f2, r2).
pub open spec fn between(m: Move, f1: int, r1: int, f2: int, r2: int) -> bool {
    pos_file(m.start_pos) == f1 && pos_rank(m.start_pos) == r1 && pos_file(m.end_pos) == f2 && pos_rank(m.end_pos)
        == r2
}

/// Index of a move's start square and end square together, in `0..4096`.
pub open spec fn move_key(m: Move) -> int {
    cell_index(pos_file(m.start_pos), pos_rank(m.start_pos)) * 64 + cell_index(
        pos_file(m.end_pos),
        pos_rank(m.end_pos),
    )
}

proof fn lemma_key(m: Move, i: int, j: int)
    requires
        move_in_bounds(m),
        0 <= i < 64,
        0 <= j < 64,
    ensures
        0 <= move_key(m) < 4096,
        move_key(m) < i * 64 + j + 1 <==> (move_key(m) < i * 64 + j || between(m, i % 8, i / 8, j % 8, j / 8)),
{
    let a = cell_index(pos_file(m.start_pos), pos_rank(m.start_pos));
    let c = cell_index(pos_file(m.end_pos), pos_rank(m.end_pos));
    assert(0 <= a < 64 && 0 <= c < 64);
    assert(move_key(m) == a * 64 + c);
    assert(move_key(m) == i * 64 + j <==> (a == i && c == j));
    assert(a == i <==> (pos_file(m.start_pos) == i % 8 && pos_rank(m.start_pos) == i / 8));
    assert(c == j <==> (pos_file(m.end_pos) == j % 8 && pos_rank(m.end_pos) == j / 8));
}

proof fn lemma_legal_in_bounds(v: BoardView, m: Move)
    requires
        legal(v, m),
    ensures
        move_in_bounds(m),
{
}

proof fn lemma_position_of_coords(p: Position)
    requires
        pos_valid(p),
    ensures
        p == Position(file_of(pos_file(p)), (pos_rank(p) + 1) as i8),
{
}

proof fn lemma_push_distinct(s: Seq<Move>, x: Move)
    requires
        s.no_duplicates(),
        !s.contains(x),
    ensures
        s.push(x).no_duplicates(),
        forall|m: Move| #[trigger] s.push(x).contains(m) <==> (s.contains(m) || m == x),
{
    let t = s.push(x);
    assert forall|i: int, j: int| 0 <= i < t.len() && 0 <= j < t.len() && i != j implies t[i] != t[j] by {
        if i < s.len() && j < s.len() {
        } else if i < s.len() {
            assert(s.contains(t[i]));
        } else {
            assert(s.contains(t[j]));
        }
    }
    assert forall|m: Move| #[trigger] t.contains(m) <==> (s.contains(m) || m == x) by {
        if t.contains(m) {
            let i = choose|i: int| 0 <= i < t.len() && t[i] == m;
            if i < s.len() {
                assert(s[i] == m);
            }
        }
        if s.contains(m) {
            let i = choose|i: int| 0 <= i < s.len() && s[i] == m;
            assert(t[i] == m);
        }
        if m == x {
            assert(t[s.len() as int] == m);
        }
    }
}

/// Pushes the candidate when it is legal.
fn push_if_legal(b: &BaseBoard, cand: Move, out: &mut Vec<Move>)
    requires
        old(out)@.no_duplicates(),
        !old(out)@.contains(cand),
    ensures
        final(out)@.no_duplicates(),
        forall|m: Move| #[trigger]
            final(out)@.contains(m) <==> (old(out)@.contains(m) || (m == cand && legal(b@, cand))),
{
    proof {
        lemma_push_distinct(old(out)@, cand);
    }
    if validate_move(b, &cand) {
        out.push(cand);
    }
}

/// Appends the legal moves from square (f1, r1) to square (f2, r2).
fn push_moves_between(b: &BaseBoard, f1: i32, r1: i32, f2: i32, r2: i32, out: &mut Vec<Move>)
    requires
        in_bounds(f1 as int, r1 as int),
        in_bounds(f2 as int, r2 as int),
        old(out)@.no_duplicates(),
        forall|m: Move| #[trigger] old(out)@.contains(m) ==> !between(m, f1 as int, r1 as int, f2 as int, r2 as int),
    ensures
        final(out)@.no_duplicates(),
        forall|m: Move| #[trigger]
            final(out)@.contains(m) <==> (old(out)@.contains(m) || (legal(b@, m) && between(
                m,
                f1 as int,
                r1 as int,
                f2 as int,
                r2 as int,
            ))),
{
    let from = Position(index_to_file(f1 as usize), (r1 + 1) as i8);
    let to = Position(index_to_file(f2 as usize), (r2 + 1) as i8);
    let piece = occupant(b, f1, r1);
    let mut cand = Move { piece, start_pos: from, end_pos: to, captured: false, promotion: None };
    let c = coords(&cand);
    let takes = occupant(b, f2, r2) != Piece::Empty || en_passant_move(b, &cand, &c);
    cand.captured = takes;
    let ghost v = b@;
    let ghost start = *old(out);
    proof {
        assert forall|m: Move| legal(v, m) && between(m, f1 as int, r1 as int, f2 as int, r2 as int) implies m
            == (Move { promotion: m.promotion, ..cand }) by {
            lemma_position_of_coords(m.start_pos);
            lemma_position_of_coords(m.end_pos);
        }
    }
    let promoting = match piece {
        Piece::Pawn(s) => match s {
            Side::White => r2 == 7,
            Side::Black => r2 == 0,
        },
        _ => false,
    };
    if promoting {
        let q = Move { promotion: Some(PieceKind::Queen), ..cand };
        let rk = Move { promotion: Some(PieceKind::Rook), ..cand };
        let bi = Move { promotion: Some(PieceKind::Bishop), ..cand };
        let kn = Move { promotion: Some(PieceKind::Knight), ..cand };
        push_if_legal(b, q, out);
        push_if_legal(b, rk, out);
        push_if_legal(b, bi, out);
        push_if_legal(b, kn, out);
        proof {
            assert forall|m: Move| legal(v, m) && between(m, f1 as int, r1 as int, f2 as int, r2 as int) implies m
                == q || m == rk || m == bi || m == kn by {
                assert(m == (Move { promotion: m.promotion, ..cand }));
            }
        }
    } else {
        push_if_legal(b, cand, out);
    }
}

/// Every legal move of the side to move, each once.
pub fn generate_legal_moves(board: &BaseBoard) -> (r: Vec<Move>)
    ensures
        r@.no_duplicates(),
        forall|m: Move| #[trigger] r@.contains(m) <==> legal(board@, m),
{
    let mut out: Vec<Move> = Vec::new();
    let mut i: i32 = 0;
    while i < 64
        invariant
            0 <= i <= 64,
            out@.no_duplicates(),
            forall|m: Move| #[trigger] out@.contains(m) <==> (legal(board@, m) && move_key(m) < i * 64),
        decreases 64 - i,
    {
        let mut j: i32 = 0;
        while j < 64
            invariant
                0 <= i < 64,
                0 <= j <= 64,
                out@.no_duplicates(),
                forall|m: Move| #[trigger] out@.contains(m) <==> (legal(board@, m) && move_key(m) < i * 64 + j),
            decreases 64 - j,
        {
            let f1 = i % 8;
            let r1 = i / 8;
            let f2 = j % 8;
            let r2 = j / 8;
            push_moves_between(board, f1, r1, f2, r2, &mut out);
            proof {
                assert forall|m: Move| #[trigger] out@.contains(m) <==> (legal(board@, m) && move_key(m) < i * 64 + j
                    + 1) by {
                    if legal(board@, m) {
                        lemma_legal_in_bounds(board@, m);
                        lemma_key(m, i as int, j as int);
                    }
                }
            }
            j = j + 1;
        }
        i = i + 1;
    }
    proof {
        assert forall|m: Move| legal(board@, m) implies move_key(m) < 4096 by {
            lemma_legal_in_bounds(board@, m);
            lemma_key(m, 0, 0);
        }
    }
    out
}

/// Judging and playing a move on a board.
pub trait Logic {
    /// The move is legal on the board.
    spec fn legal_on(&self, board: BoardView) -> bool;

    /// The board after the move.
    spec fn result_on(&self, board: BoardView) -> BoardView;

    /// Whether the move is legal on the board.
    fn validate_move(&self, board: BaseBoard) -> (r: bool)
        ensures
            r == self.legal_on(board@),
    ;

    /// The board after the move, or `IllegalMove` exactly when the move is not legal.
    fn make_move(&self, board: BaseBoard) -> (r: Result<BaseBoard, ChessError>)
        requires
            board@.halfmove_clock < u32::MAX,
        ensures
            match r {
                Ok(next) => self.legal_on(board@) && next@ == self.result_on(board@),
                Err(e) => !self.legal_on(board@) && e == ChessError::IllegalMove,
            },
    ;
}

impl Logic for Move {
    open spec fn legal_on(&self, board: BoardView) -> bool {
        legal(board, *self)
    }

    open spec fn result_on(&self, board: BoardView) -> BoardView {
        apply(board, *self)
    }

    fn validate_move(&self, board: BaseBoard) -> (r: bool) {
        validate_move(&board, self)
    }

    fn make_move(&self, board: BaseBoard) -> (r: Result<BaseBoard, ChessError>) {
        make_move(&board, self)
    }
}

} // verus!
