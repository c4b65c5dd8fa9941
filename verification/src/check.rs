//! Check detection and the legality filter: a destination is legal when
//! playing it on a throwaway copy of the position leaves the mover's king
//! out of check.

use crate::board::{
    find_from, in_bounds, king_of, lemma_find_from_sound, opposite, selection_ok, squares_moved,
    Board, PColor, Piece, PieceType,
};
use crate::moves::gen_seq;
use crate::rules::{attacks, color_in_check, is_candidate, square_attacked};
use vstd::prelude::*;

verus! {

broadcast use vstd::seq_lib::lemma_seq_contains_after_push;

/// Playing the selected piece from (`sr`, `sf`) to `d` leaves the mover —
/// the side to move in `b` — out of check.
pub open spec fn keeps_king_safe(b: Board, sr: int, sf: int, d: (usize, usize)) -> bool {
    !color_in_check(squares_moved(b.squares, sr, sf, d.0 as int, d.1 as int), b.turn)
}

/// The legal destinations among the first `n` generated candidates, in
/// generation order.
pub open spec fn legal_prefix(b: Board, sr: int, sf: int, n: int) -> Seq<(usize, usize)>
    decreases n,
{
    if n <= 0 {
        Seq::empty()
    } else {
        let s = legal_prefix(b, sr, sf, n - 1);
        let d = gen_seq(b.squares, sr, sf)[n - 1];
        if keeps_king_safe(b, sr, sf, d) {
            s.push(d)
        } else {
            s
        }
    }
}

/// The legal destinations of the piece on (`sr`, `sf`): the generated
/// candidates in their order, keeping exactly those whose play leaves the
/// mover's king safe.
pub open spec fn legal_seq(b: Board, sr: int, sf: int) -> Seq<(usize, usize)> {
    legal_prefix(b, sr, sf, gen_seq(b.squares, sr, sf).len() as int)
}

/// Whether `moves` lists the square (`r`, `f`).
fn contains_square(moves: &Vec<(usize, usize)>, r: usize, f: usize) -> (found: bool)
    ensures
        found == moves@.contains((r, f)),
{
    let mut i: usize = 0;
    while i < moves.len()
        invariant
            i <= moves.len(),
            forall|j: int| 0 <= j < i ==> moves@[j] != (r, f),
        decreases moves.len() - i,
    {
        let (mr, mf) = moves[i];
        if mr == r && mf == f {
            assert(moves@[i as int] == (r, f));
            return true;
        }
        i += 1;
    }
    false
}

impl Board {
    /// Whether the color that is *not* to move — the side that just played —
    /// stands in check: its king's square is reached by some piece of the
    /// side to move under candidate generation. A missing king counts as not
    /// in check.
    pub fn in_check(&self) -> (res: bool)
        ensures
            res == color_in_check(self.squares, opposite(self.turn)),
    {
        let color = match self.turn {
            PColor::White => PColor::Black,
            PColor::Black => PColor::White,
        };

        if let Some(king_position) = self.find(
            Piece { p_type: PieceType::King, p_color: color },
        ) {
            let (kr, kf) = king_position;
            proof {
                lemma_find_from_sound(self.squares, king_of(color), 0, kr, kf);
            }
            let mut rank: usize = 0;
            while rank < 8
                invariant
                    rank <= 8,
                    kr < 8,
                    kf < 8,
                    color == opposite(self.turn),
                    find_from(self.squares, king_of(color), 0) == Some((kr, kf)),
                    forall|ar: int, af: int|
                        in_bounds(ar, af) && ar < rank ==> !#[trigger] attacks(
                            self.squares,
                            ar,
                            af,
                            color,
                            kr as int,
                            kf as int,
                        ),
                decreases 8 - rank,
            {
                let mut file: usize = 0;
                while file < 8
                    invariant
                        rank < 8,
                        file <= 8,
                        kr < 8,
                        kf < 8,
                        color == opposite(self.turn),
                        find_from(self.squares, king_of(color), 0) == Some((kr, kf)),
                        forall|ar: int, af: int|
                            in_bounds(ar, af) && (ar < rank || (ar == rank && af < file))
                                ==> !#[trigger] attacks(
                                self.squares,
                                ar,
                                af,
                                color,
                                kr as int,
                                kf as int,
                            ),
                    decreases 8 - file,
                {
                    let row = self.squares[rank];
                    if let Some(piece) = row[file] {
                        if piece.p_color != color {
                            let moves = self.moves_from(rank, file);
                            if contains_square(&moves, kr, kf) {
                                proof {
                                    assert(attacks(
                                        self.squares,
                                        rank as int,
                                        file as int,
                                        color,
                                        kr as int,
                                        kf as int,
                                    ));
                                    assert(square_attacked(
                                        self.squares,
                                        color,
                                        kr as int,
                                        kf as int,
                                    ));
                                }
                                return true;
                            }
                        }
                    }
                    file += 1;
                }
                rank += 1;
            }
            false
        } else {
            false
        }
    }

    /// The subsequence of the selected piece's candidates whose play does
    /// not leave the mover's own king in check; empty when nothing is
    /// selected. Each candidate is tried on an independent copy of the
    /// position, so the position itself never changes.
    pub fn legal_moves(&self) -> (legalmoves: Vec<(usize, usize)>)
        requires
            selection_ok(*self),
        ensures
            self.selected_piece is None ==> legalmoves@.len() == 0,
            self.selected_piece matches Some((sr, sf)) ==> forall|d: (usize, usize)| #[trigger]
                legalmoves@.contains(d) <==> is_candidate(
                    self.squares,
                    sr as int,
                    sf as int,
                    d.0 as int,
                    d.1 as int,
                ) && !color_in_check(
                    squares_moved(self.squares, sr as int, sf as int, d.0 as int, d.1 as int),
                    self.turn,
                ),
            self.selected_piece matches Some((sr, sf)) ==> legalmoves@ == legal_seq(
                *self,
                sr as int,
                sf as int,
            ),
    {
        let moves = self.move_generation();
        let mut legalmoves: Vec<(usize, usize)> = Vec::new();
        if self.selected_piece.is_none() {
            return legalmoves;
        }
        let mut i: usize = 0;
        while i < moves.len()
            invariant
                i <= moves.len(),
                selection_ok(*self),
                self.selected_piece is Some,
                self.selected_piece matches Some((sr, sf)) ==> {
                    &&& (forall|d: (usize, usize)| #[trigger]
                        moves@.contains(d) <==> is_candidate(
                            self.squares,
                            sr as int,
                            sf as int,
                            d.0 as int,
                            d.1 as int,
                        ))
                    &&& (forall|d: (usize, usize)| #[trigger]
                        legalmoves@.contains(d) <==> moves@.take(i as int).contains(d)
                            && !color_in_check(
                            squares_moved(
                                self.squares,
                                sr as int,
                                sf as int,
                                d.0 as int,
                                d.1 as int,
                            ),
                            self.turn,
                        ))
                    &&& moves@ == gen_seq(self.squares, sr as int, sf as int)
                    &&& legalmoves@ == legal_prefix(*self, sr as int, sf as int, i as int)
                },
            decreases moves.len() - i,
        {
            let (rank, file) = moves[i];
            proof {
                assert(moves@.contains(moves@[i as int]));
            }
            let mut board_copy = self.copy();
            board_copy.make_move(rank, file);

            if !board_copy.in_check() {
                legalmoves.push((rank, file));
            }
            proof {
                assert(moves@.take(i + 1) =~= moves@.take(i as int).push(moves@[i as int]));
            }
            i += 1;
        }
        proof {
            assert(moves@.take(moves@.len() as int) =~= moves@);
        }
        legalmoves
    }
}

} // verus!
