//! General facts about the movement model and move application, stated and
//! proved once and for all boards.

use crate::board::{
    apply_move, in_bounds, initial_piece_at, opposite, Board, PColor, Piece, PieceType, Squares,
};
use crate::moves::gen_seq;
use crate::rules::{between_sq, empty_at, enemy_at, is_candidate};
use vstd::prelude::*;

verus! {

/// From the standard starting arrangement, a White pawn on rank 1 has
/// exactly two candidates, generated in this order: the square straight
/// ahead, then the double step, both on its own file.
pub proof fn lemma_initial_pawn_candidates(sq: Squares, file: int, r1: int, f1: int)
    requires
        forall|r: int, f: int| in_bounds(r, f) ==> #[trigger] sq[r][f] == initial_piece_at(r, f),
        0 <= file < 8,
    ensures
        is_candidate(sq, 1, file, r1, f1) <==> ((r1 == 2 || r1 == 3) && f1 == file),
        gen_seq(sq, 1, file) == seq![((2 as usize), (file as usize)), ((3 as usize), (file as usize))],
{
    assert(sq[1][file] == initial_piece_at(1, file));
    assert(sq[2][file] == initial_piece_at(2, file));
    assert(sq[3][file] == initial_piece_at(3, file));
    if 0 < file {
        assert(sq[2][file - 1] == initial_piece_at(2, file - 1));
        assert(sq[1][file - 1] == initial_piece_at(1, file - 1));
    }
    if file < 7 {
        assert(sq[2][file + 1] == initial_piece_at(2, file + 1));
        assert(sq[1][file + 1] == initial_piece_at(1, file + 1));
    }
    assert(gen_seq(sq, 1, file) =~= seq![
        ((2 as usize), (file as usize)),
        ((3 as usize), (file as usize)),
    ]);
}

/// A rook reaches the first enemy piece on its rank or file — every square
/// short of it empty — and nothing past it: the enemy square is a candidate
/// and every square that has the enemy square strictly between itself and
/// the rook is not.
pub proof fn lemma_capture_then_stop(
    sq: Squares,
    r0: int,
    f0: int,
    c: PColor,
    r1: int,
    f1: int,
    r2: int,
    f2: int,
)
    requires
        in_bounds(r0, f0),
        in_bounds(r1, f1),
        sq[r0][f0] == Some(Piece { p_type: PieceType::Rook, p_color: c }),
        (r0 == r1 && f0 != f1) || (f0 == f1 && r0 != r1),
        forall|ra: int, fa: int|
            between_sq(r0, f0, r1, f1, ra, fa) ==> #[trigger] empty_at(sq, ra, fa),
        enemy_at(sq, r1, f1, c),
        between_sq(r0, f0, r2, f2, r1, f1),
    ensures
        is_candidate(sq, r0, f0, r1, f1),
        !is_candidate(sq, r0, f0, r2, f2),
{
    assert(!empty_at(sq, r1, f1));
}

/// A knight's candidacy reads nothing but its own square and the
/// destination square: two boards that agree on those two squares agree on
/// the move, whatever stands anywhere else — in particular, pieces on the
/// adjacent squares never block a knight.
pub proof fn lemma_knight_ignores_blocking(
    sq1: Squares,
    sq2: Squares,
    r0: int,
    f0: int,
    r1: int,
    f1: int,
)
    requires
        in_bounds(r0, f0),
        sq1[r0][f0] == sq2[r0][f0],
        sq1[r0][f0] matches Some(p) && p.p_type == PieceType::Knight,
        in_bounds(r1, f1) ==> sq1[r1][f1] == sq2[r1][f1],
    ensures
        is_candidate(sq1, r0, f0, r1, f1) == is_candidate(sq2, r0, f0, r1, f1),
{
}

/// Applying a move while a selection is pending flips the side to move and
/// clears the selection.
pub proof fn lemma_apply_move_alternates(b: Board, r: int, f: int)
    requires
        b.selected_piece is Some,
    ensures
        apply_move(b, r, f).turn == opposite(b.turn),
        apply_move(b, r, f).selected_piece is None,
{
}

/// A second move application without an intervening selection changes
/// nothing: the first application leaves no selection, and applying a move
/// with no selection returns the position untouched.
pub proof fn lemma_apply_move_idempotent(b: Board, r1: int, f1: int, r2: int, f2: int)
    ensures
        apply_move(apply_move(b, r1, f1), r2, f2) == apply_move(b, r1, f1),
{
}

} // verus!
