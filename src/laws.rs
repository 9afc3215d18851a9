use vstd::prelude::*;
use crate::logic::{
    apply, attacked, step, forward, in_check, is_double_step, is_en_passant, landing_piece, legal, pawn_start_rank,
    pseudo_legal,
};
use crate::structures::{
    cell, cell_at, in_bounds, is_castle_shape, opponent, owned_by, pos_file, pos_rank, BoardView, File, Move, Piece,
    Position,
};

verus! {

/// A move is rejected when its start square is empty or holds a piece of the side that is
/// not to move.
pub proof fn lemma_rejects_foreign_start(v: BoardView, m: Move)
    requires
        cell_at(v, m.start_pos) == Piece::Empty || owned_by(cell_at(v, m.start_pos), opponent(v.side_to_move)),
    ensures
        !legal(v, m),
{
}

/// A legal two-square pawn advance starts on the pawn's starting rank and passes over and
/// lands on empty squares; afterwards the en-passant target is the skipped square.
pub proof fn lemma_double_step(v: BoardView, m: Move)
    requires
        legal(v, m),
        is_double_step(m),
    ensures
        pos_file(m.end_pos) == pos_file(m.start_pos),
        pos_rank(m.start_pos) == pawn_start_rank(v.side_to_move),
        cell(v, pos_file(m.start_pos), pos_rank(m.start_pos) + forward(v.side_to_move)) == Piece::Empty,
        cell_at(v, m.end_pos) == Piece::Empty,
        apply(v, m).en_passant == Some(Position(m.end_pos.0, (m.start_pos.1 + forward(v.side_to_move)) as i8)),
{
}

/// Every move but a two-square pawn advance leaves no en-passant target.
pub proof fn lemma_en_passant_cleared(v: BoardView, m: Move)
    requires
        !is_double_step(m),
    ensures
        apply(v, m).en_passant is None,
{
}

proof fn lemma_same_cells_attacks(s: BoardView, w: BoardView, f1: int, r1: int, f: int, r: int)
    requires
        s.cells == w.cells,
    ensures
        crate::logic::attacks(s, f1, r1, f, r) == crate::logic::attacks(w, f1, r1, f, r),
{
    assert(crate::logic::path_clear(s, f1, r1, f, r) == crate::logic::path_clear(w, f1, r1, f, r)) by {
        assert forall|k: int|
            #![trigger cell(s, step(f1, f - f1, k), step(r1, r - r1, k))]
            #![trigger cell(w, step(f1, f - f1, k), step(r1, r - r1, k))]
            cell(s, step(f1, f - f1, k), step(r1, r - r1, k)) == cell(w, step(f1, f - f1, k), step(r1, r - r1, k)) by {}
    }
}

/// A geometrically valid move is legal exactly when the mover's king is not attacked in the
/// resulting position.
pub proof fn lemma_king_left_attacked(v: BoardView, m: Move)
    requires
        pseudo_legal(v, m),
    ensures
        legal(v, m) <==> !in_check(apply(v, m), v.side_to_move),
{
    let s = crate::logic::scratch(v, m);
    let w = apply(v, m);
    assert(s.cells == w.cells);
    assert forall|f: int, r: int| #[trigger] cell(s, f, r) == cell(w, f, r) by {}
    assert(in_check(s, v.side_to_move) == in_check(w, v.side_to_move)) by {
        if in_check(s, v.side_to_move) {
            let (f, r) = choose|f: int, r: int| #[trigger] crate::logic::king_attacked_at(s, f, r, v.side_to_move);
            let (f1, r1) = choose|f1: int, r1: int|
                #[trigger] crate::logic::attacker(s, f1, r1, f, r, opponent(v.side_to_move));
            lemma_same_cells_attacks(s, w, f1, r1, f, r);
            assert(crate::logic::attacker(w, f1, r1, f, r, opponent(v.side_to_move)));
            assert(crate::logic::king_attacked_at(w, f, r, v.side_to_move));
        }
        if in_check(w, v.side_to_move) {
            let (f, r) = choose|f: int, r: int| #[trigger] crate::logic::king_attacked_at(w, f, r, v.side_to_move);
            let (f1, r1) = choose|f1: int, r1: int|
                #[trigger] crate::logic::attacker(w, f1, r1, f, r, opponent(v.side_to_move));
            lemma_same_cells_attacks(s, w, f1, r1, f, r);
            assert(crate::logic::attacker(s, f1, r1, f, r, opponent(v.side_to_move)));
            assert(crate::logic::king_attacked_at(s, f, r, v.side_to_move));
        }
    }
}

/// Castling is rejected when a square between king and rook is occupied, or when the king
/// stands on, passes through or lands on an attacked square, whatever the castling rights.
pub proof fn lemma_castle_blocked(v: BoardView, m: Move)
    requires
        is_castle_shape(m),
        ({
            let r = pos_rank(m.start_pos);
            let opp = opponent(v.side_to_move);
            if m.end_pos.0 == File::G {
                cell(v, 5, r) != Piece::Empty || cell(v, 6, r) != Piece::Empty || attacked(v, 4, r, opp)
                    || attacked(v, 5, r, opp) || attacked(v, 6, r, opp)
            } else {
                cell(v, 1, r) != Piece::Empty || cell(v, 2, r) != Piece::Empty || cell(v, 3, r) != Piece::Empty
                    || attacked(v, 4, r, opp) || attacked(v, 3, r, opp) || attacked(v, 2, r, opp)
            }
        }),
    ensures
        !legal(v, m),
{
}

/// A legal capture empties the start square, puts the moving piece (or its promotion) on the
/// end square, removes the captured piece and changes nothing else on the board; the other
/// side is then to move and the half-move clock is 0.
pub proof fn lemma_capture_effect(v: BoardView, m: Move)
    requires
        legal(v, m),
        m.captured,
    ensures
        ({
            let w = apply(v, m);
            let f1 = pos_file(m.start_pos);
            let r1 = pos_rank(m.start_pos);
            let f2 = pos_file(m.end_pos);
            let r2 = pos_rank(m.end_pos);
            &&& cell(w, f1, r1) == Piece::Empty
            &&& cell(w, f2, r2) == landing_piece(v, m)
            &&& is_en_passant(v, m) ==> cell(v, f2, r1) == Piece::Pawn(opponent(v.side_to_move)) && cell(w, f2, r1)
                == Piece::Empty
            &&& !is_en_passant(v, m) ==> owned_by(cell(v, f2, r2), opponent(v.side_to_move))
            &&& forall|f: int, r: int|
                in_bounds(f, r) && !(f == f1 && r == r1) && !(f == f2 && r == r2) && !(is_en_passant(v, m) && f == f2
                    && r == r1) ==> #[trigger] cell(w, f, r) == cell(v, f, r)
            &&& w.side_to_move == opponent(v.side_to_move)
            &&& w.halfmove_clock == 0
        }),
{
}

/// After a legal move the half-move clock is 0 when a pawn moved or a piece was taken, and
/// one more than before otherwise.
pub proof fn lemma_clock(v: BoardView, m: Move)
    requires
        legal(v, m),
    ensures
        apply(v, m).halfmove_clock == if m.piece is Pawn || m.captured {
            0
        } else {
            v.halfmove_clock + 1
        },
        apply(v, m).side_to_move == opponent(v.side_to_move),
{
}

} // verus!
