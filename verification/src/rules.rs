//! The movement rules as a mathematical model: which destination squares a
//! piece may reach, and when a color's king is in check. The executable
//! generator in this crate is proved to produce exactly these candidates.

use crate::board::{find_from, in_bounds, king_of, PColor, Piece, PieceType, Squares};
use vstd::prelude::*;

verus! {

/// Square (`r`, `f`) is on the board and empty.
pub open spec fn empty_at(sq: Squares, r: int, f: int) -> bool {
    in_bounds(r, f) && sq[r][f] is None
}

/// Square (`r`, `f`) is on the board and holds a piece of the color opposite
/// to `c`.
pub open spec fn enemy_at(sq: Squares, r: int, f: int, c: PColor) -> bool {
    in_bounds(r, f) && match sq[r][f] {
        None => false,
        Some(p) => p.p_color != c,
    }
}

/// A piece of color `c` may land on (`r`, `f`): the square is empty, or it
/// holds an enemy piece that the move captures by overwrite.
pub open spec fn empty_or_enemy(sq: Squares, r: int, f: int, c: PColor) -> bool {
    empty_at(sq, r, f) || enemy_at(sq, r, f, c)
}

/// `x` lies strictly between `a` and `b`.
pub open spec fn strictly_between(a: int, b: int, x: int) -> bool {
    (a < x && x < b) || (b < x && x < a)
}

/// (`r2`, `f2`) is one of the squares a sliding piece passes over on its way
/// from (`r0`, `f0`) to (`r1`, `f1`): strictly inside the horizontal,
/// vertical or diagonal segment between those two squares.
pub open spec fn between_sq(r0: int, f0: int, r1: int, f1: int, r2: int, f2: int) -> bool {
    ||| (r0 == r1 && r2 == r0 && strictly_between(f0, f1, f2))
    ||| (f0 == f1 && f2 == f0 && strictly_between(r0, r1, r2))
    ||| (r1 - r0 == f1 - f0 && r2 - r0 == f2 - f0 && strictly_between(r0, r1, r2))
    ||| (r1 - r0 == f0 - f1 && r2 - r0 == f0 - f2 && strictly_between(r0, r1, r2))
}

/// (`r1`, `f1`) is a square other than (`r0`, `f0`) on the ray leaving
/// (`r0`, `f0`) with unit direction (`dr`, `df`), each component in
/// {-1, 0, 1}.
pub open spec fn ray_from(r0: int, f0: int, dr: int, df: int, r1: int, f1: int) -> bool {
    &&& if dr == 0 {
        r1 == r0
    } else if dr == 1 {
        r1 > r0
    } else {
        r1 < r0
    }
    &&& if df == 0 {
        f1 == f0
    } else if df == 1 {
        f1 > f0
    } else {
        f1 < f0
    }
    &&& (dr != 0 && df != 0 ==> (r1 - r0 == f1 - f0 || r1 - r0 == f0 - f1))
}

/// A sliding move in unit direction (`dr`, `df`): the destination lies on
/// the ray, every square passed over is empty, and the destination itself is
/// empty or an enemy capture. The first occupied square on the ray ends the
/// slide: it is reachable exactly when it holds an enemy piece, and nothing
/// beyond it is.
pub open spec fn dir_candidate(
    sq: Squares,
    r0: int,
    f0: int,
    c: PColor,
    dr: int,
    df: int,
    r1: int,
    f1: int,
) -> bool {
    &&& in_bounds(r1, f1)
    &&& ray_from(r0, f0, dr, df, r1, f1)
    &&& (forall|r2: int, f2: int|
        between_sq(r0, f0, r1, f1, r2, f2) ==> #[trigger] empty_at(sq, r2, f2))
    &&& empty_or_enemy(sq, r1, f1, c)
}

/// Rook movement: a slide along one of the four orthogonal directions.
pub open spec fn rook_candidate(
    sq: Squares,
    r0: int,
    f0: int,
    c: PColor,
    r1: int,
    f1: int,
) -> bool {
    ||| dir_candidate(sq, r0, f0, c, 1, 0, r1, f1)
    ||| dir_candidate(sq, r0, f0, c, -1, 0, r1, f1)
    ||| dir_candidate(sq, r0, f0, c, 0, 1, r1, f1)
    ||| dir_candidate(sq, r0, f0, c, 0, -1, r1, f1)
}

/// Bishop movement: a slide along one of the four diagonal directions.
pub open spec fn bishop_candidate(
    sq: Squares,
    r0: int,
    f0: int,
    c: PColor,
    r1: int,
    f1: int,
) -> bool {
    ||| dir_candidate(sq, r0, f0, c, 1, 1, r1, f1)
    ||| dir_candidate(sq, r0, f0, c, 1, -1, r1, f1)
    ||| dir_candidate(sq, r0, f0, c, -1, 1, r1, f1)
    ||| dir_candidate(sq, r0, f0, c, -1, -1, r1, f1)
}

/// (`r1`, `f1`) is a knight's jump away from (`r0`, `f0`).
pub open spec fn knight_offset(r0: int, f0: int, r1: int, f1: int) -> bool {
    ||| (r1 == r0 + 1 && f1 == f0 + 2)
    ||| (r1 == r0 + 1 && f1 == f0 - 2)
    ||| (r1 == r0 - 1 && f1 == f0 + 2)
    ||| (r1 == r0 - 1 && f1 == f0 - 2)
    ||| (r1 == r0 + 2 && f1 == f0 + 1)
    ||| (r1 == r0 + 2 && f1 == f0 - 1)
    ||| (r1 == r0 - 2 && f1 == f0 + 1)
    ||| (r1 == r0 - 2 && f1 == f0 - 1)
}

/// (`r1`, `f1`) is one unit step away from (`r0`, `f0`) in any of the eight
/// directions.
pub open spec fn king_offset(r0: int, f0: int, r1: int, f1: int) -> bool {
    &&& !(r1 == r0 && f1 == f0)
    &&& r0 - 1 <= r1 <= r0 + 1
    &&& f0 - 1 <= f1 <= f0 + 1
}

/// Knight movement: a fixed jump, indifferent to every square but the
/// destination — intervening pieces never block it.
pub open spec fn knight_candidate(
    sq: Squares,
    r0: int,
    f0: int,
    c: PColor,
    r1: int,
    f1: int,
) -> bool {
    in_bounds(r1, f1) && knight_offset(r0, f0, r1, f1) && empty_or_enemy(sq, r1, f1, c)
}

/// King movement: one step in any direction. Walking into attack is not this
/// rule's concern; the legality filter rejects that.
pub open spec fn king_candidate(
    sq: Squares,
    r0: int,
    f0: int,
    c: PColor,
    r1: int,
    f1: int,
) -> bool {
    in_bounds(r1, f1) && king_offset(r0, f0, r1, f1) && empty_or_enemy(sq, r1, f1, c)
}

/// The rank direction a pawn of color `c` advances in.
pub open spec fn pawn_dir(c: PColor) -> int {
    match c {
        PColor::White => 1,
        PColor::Black => -1,
    }
}

/// A pawn of color `c` on rank `r0` may still make its double step.
pub open spec fn double_step_rank(r0: int, c: PColor) -> bool {
    (r0 == 1 && c == PColor::White) || (r0 == 6 && c == PColor::Black)
}

/// A pawn of color `c` on rank `r0` is placed to capture en passant.
pub open spec fn en_passant_rank(r0: int, c: PColor) -> bool {
    (r0 == 4 && c == PColor::White) || (r0 == 3 && c == PColor::Black)
}

/// Square (`r`, `f`) holds a pawn of the color opposite to `c`.
pub open spec fn enemy_pawn_at(sq: Squares, r: int, f: int, c: PColor) -> bool {
    in_bounds(r, f) && match sq[r][f] {
        None => false,
        Some(p) => p.p_color != c && p.p_type == PieceType::Pawn,
    }
}

/// Pawn movement for a pawn of color `c` on (`r0`, `f0`): a single push onto
/// an empty square; a double push from the home rank across two empty
/// squares; a diagonal capture of an enemy piece; and the en-passant
/// heuristic — from the rank where en passant can arise, an enemy pawn on an
/// adjacent file of the pawn's *own* rank makes the diagonal square in front
/// of it a candidate, whatever that square holds. The heuristic does not
/// check that the enemy pawn just made its double step. If even the single
/// forward rank is off the board, the pawn has no candidates at all.
pub open spec fn pawn_candidate(
    sq: Squares,
    r0: int,
    f0: int,
    c: PColor,
    r1: int,
    f1: int,
) -> bool {
    let d = pawn_dir(c);
    &&& in_bounds(r0 + d, f0)
    &&& {
        ||| (r1 == r0 + d && f1 == f0 && sq[r0 + d][f0] is None)
        ||| (r1 == r0 + 2 * d && f1 == f0 && double_step_rank(r0, c) && sq[r0 + 2 * d][f0] is None
            && sq[r0 + d][f0] is None)
        ||| (r1 == r0 + d && f1 == f0 - 1 && f0 > 0 && enemy_at(sq, r0 + d, f0 - 1, c))
        ||| (r1 == r0 + d && f1 == f0 + 1 && f0 < 7 && enemy_at(sq, r0 + d, f0 + 1, c))
        ||| (en_passant_rank(r0, c) && r1 == r0 + d && f1 == f0 - 1 && f0 > 0 && enemy_pawn_at(
            sq,
            r0,
            f0 - 1,
            c,
        ))
        ||| (en_passant_rank(r0, c) && r1 == r0 + d && f1 == f0 + 1 && f0 < 7 && enemy_pawn_at(
            sq,
            r0,
            f0 + 1,
            c,
        ))
    }
}

/// (`r1`, `f1`) is a pseudo-legal destination for the piece standing on
/// (`r0`, `f0`): reachable under that piece's movement rule, ignoring
/// whether the move exposes the mover's own king. An empty source square has
/// no candidates.
pub open spec fn is_candidate(sq: Squares, r0: int, f0: int, r1: int, f1: int) -> bool {
    in_bounds(r0, f0) && match sq[r0][f0] {
        None => false,
        Some(p) => match p.p_type {
            PieceType::Pawn => pawn_candidate(sq, r0, f0, p.p_color, r1, f1),
            PieceType::Rook => rook_candidate(sq, r0, f0, p.p_color, r1, f1),
            PieceType::Knight => knight_candidate(sq, r0, f0, p.p_color, r1, f1),
            PieceType::Bishop => bishop_candidate(sq, r0, f0, p.p_color, r1, f1),
            PieceType::Queen => rook_candidate(sq, r0, f0, p.p_color, r1, f1) || bishop_candidate(
                sq,
                r0,
                f0,
                p.p_color,
                r1,
                f1,
            ),
            PieceType::King => king_candidate(sq, r0, f0, p.p_color, r1, f1),
        },
    }
}

/// The piece on (`ar`, `af`) belongs to the color opposite `c` and reaches
/// (`tr`, `tf`) under candidate generation. Check detection deliberately
/// reuses the candidate rule unchanged rather than a capture-only rule.
/// For pawns the two happen to agree on occupied targets: a push needs an
/// empty destination, so a king standing on a pawn's push square blocks the
/// push and only the pawn's diagonal squares count as attacks on it.
pub open spec fn attacks(sq: Squares, ar: int, af: int, c: PColor, tr: int, tf: int) -> bool {
    &&& in_bounds(ar, af)
    &&& match sq[ar][af] {
        None => false,
        Some(p) => p.p_color != c,
    }
    &&& is_candidate(sq, ar, af, tr, tf)
}

/// Some piece of the color opposite `c` reaches (`tr`, `tf`).
pub open spec fn square_attacked(sq: Squares, c: PColor, tr: int, tf: int) -> bool {
    exists|ar: int, af: int| #[trigger] attacks(sq, ar, af, c, tr, tf)
}

/// Color `c` is in check: its king — the first one found in rank-major scan
/// order — stands on a square some enemy piece reaches. With no king of
/// color `c` on the board, `c` counts as not in check rather than an error.
pub open spec fn color_in_check(sq: Squares, c: PColor) -> bool {
    match find_from(sq, king_of(c), 0) {
        None => false,
        Some((kr, kf)) => square_attacked(sq, c, kr as int, kf as int),
    }
}

} // verus!
