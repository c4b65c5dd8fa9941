//! Pseudo-legal move generation: for the selected square, the ordered list
//! of destinations its piece may reach. The generator is proved to return
//! exactly the candidates of the movement model in `rules`, in the fixed
//! order that the sequence model below spells out.

use crate::board::{in_bounds, selection_ok, Board, PColor, PieceType, Squares};
use crate::rules::{
    between_sq, bishop_candidate, dir_candidate, double_step_rank, empty_at, empty_or_enemy,
    en_passant_rank, enemy_at, enemy_pawn_at, is_candidate, king_candidate, knight_candidate,
    pawn_candidate, pawn_dir, ray_from, rook_candidate,
};
use vstd::prelude::*;

verus! {

broadcast use
    vstd::seq_lib::lemma_seq_contains_after_push,
    vstd::seq_lib::lemma_seq_concat_contains_all_elements;

/// The slide destinations outward from (`r`, `f`) in unit direction
/// (`dr`, `df`), in walking order: every empty square until the first
/// occupied one, which is kept exactly when it holds an enemy piece.
pub open spec fn ray_seq(sq: Squares, c: PColor, r: int, f: int, dr: int, df: int) -> Seq<
    (usize, usize),
>
    decreases (
    if dr >= 1 {
        8 - r
    } else if dr <= -1 {
        r + 1
    } else if df >= 1 {
        8 - f
    } else {
        f + 1
    }),
{
    let nr = r + dr;
    let nf = f + df;
    if (dr == 0 && df == 0) || !in_bounds(nr, nf) {
        Seq::empty()
    } else {
        match sq[nr][nf] {
            None => seq![((nr as usize), (nf as usize))] + ray_seq(sq, c, nr, nf, dr, df),
            Some(p) => if p.p_color != c {
                seq![((nr as usize), (nf as usize))]
            } else {
                Seq::empty()
            },
        }
    }
}

/// `s` extended with the single-step destination (`r0` + `dr`, `f0` + `df`),
/// when that square is on the board and empty or an enemy capture for `c`;
/// unchanged otherwise.
pub open spec fn leap_push(
    sq: Squares,
    c: PColor,
    s: Seq<(usize, usize)>,
    r0: int,
    f0: int,
    dr: int,
    df: int,
) -> Seq<(usize, usize)> {
    let nr = r0 + dr;
    let nf = f0 + df;
    if in_bounds(nr, nf) && empty_or_enemy(sq, nr, nf, c) {
        s.push(((nr as usize), (nf as usize)))
    } else {
        s
    }
}

/// The destinations of a pawn of color `c` on (`r0`, `f0`), in generation
/// order: single push, double push, the two diagonal captures, then the two
/// en-passant offers.
pub open spec fn pawn_seq(sq: Squares, c: PColor, r0: int, f0: int) -> Seq<(usize, usize)> {
    let d = pawn_dir(c);
    let r1 = r0 + d;
    if !in_bounds(r1, f0) {
        Seq::empty()
    } else {
        let s: Seq<(usize, usize)> = Seq::empty();
        let s = if sq[r1][f0] is None {
            s.push(((r1 as usize), (f0 as usize)))
        } else {
            s
        };
        let s = if double_step_rank(r0, c) && sq[r0 + 2 * d][f0] is None && sq[r1][f0] is None {
            s.push((((r0 + 2 * d) as usize), (f0 as usize)))
        } else {
            s
        };
        let s = if f0 > 0 && enemy_at(sq, r1, f0 - 1, c) {
            s.push(((r1 as usize), ((f0 - 1) as usize)))
        } else {
            s
        };
        let s = if f0 < 7 && enemy_at(sq, r1, f0 + 1, c) {
            s.push(((r1 as usize), ((f0 + 1) as usize)))
        } else {
            s
        };
        let s = if en_passant_rank(r0, c) && f0 > 0 && enemy_pawn_at(sq, r0, f0 - 1, c) {
            s.push(((r1 as usize), ((f0 - 1) as usize)))
        } else {
            s
        };
        let s = if en_passant_rank(r0, c) && f0 < 7 && enemy_pawn_at(sq, r0, f0 + 1, c) {
            s.push(((r1 as usize), ((f0 + 1) as usize)))
        } else {
            s
        };
        s
    }
}

/// The rook destinations: the four orthogonal slides in order.
pub open spec fn rook_seq(sq: Squares, c: PColor, r0: int, f0: int) -> Seq<(usize, usize)> {
    ray_seq(sq, c, r0, f0, 1, 0) + ray_seq(sq, c, r0, f0, -1, 0) + ray_seq(sq, c, r0, f0, 0, 1)
        + ray_seq(sq, c, r0, f0, 0, -1)
}

/// The bishop destinations: the four diagonal slides in order.
pub open spec fn bishop_seq(sq: Squares, c: PColor, r0: int, f0: int) -> Seq<(usize, usize)> {
    ray_seq(sq, c, r0, f0, 1, 1) + ray_seq(sq, c, r0, f0, 1, -1) + ray_seq(sq, c, r0, f0, -1, 1)
        + ray_seq(sq, c, r0, f0, -1, -1)
}

/// The queen destinations: the rook slides, then the bishop slides.
pub open spec fn queen_seq(sq: Squares, c: PColor, r0: int, f0: int) -> Seq<(usize, usize)> {
    rook_seq(sq, c, r0, f0) + bishop_seq(sq, c, r0, f0)
}

/// The knight destinations: the eight fixed jumps in order.
pub open spec fn knight_seq(sq: Squares, c: PColor, r0: int, f0: int) -> Seq<(usize, usize)> {
    let s: Seq<(usize, usize)> = Seq::empty();
    let s = leap_push(sq, c, s, r0, f0, 1, 2);
    let s = leap_push(sq, c, s, r0, f0, 1, -2);
    let s = leap_push(sq, c, s, r0, f0, -1, 2);
    let s = leap_push(sq, c, s, r0, f0, -1, -2);
    let s = leap_push(sq, c, s, r0, f0, 2, 1);
    let s = leap_push(sq, c, s, r0, f0, 2, -1);
    let s = leap_push(sq, c, s, r0, f0, -2, 1);
    let s = leap_push(sq, c, s, r0, f0, -2, -1);
    s
}

/// The king destinations: the eight unit steps in order.
pub open spec fn king_seq(sq: Squares, c: PColor, r0: int, f0: int) -> Seq<(usize, usize)> {
    let s: Seq<(usize, usize)> = Seq::empty();
    let s = leap_push(sq, c, s, r0, f0, 1, 0);
    let s = leap_push(sq, c, s, r0, f0, -1, 0);
    let s = leap_push(sq, c, s, r0, f0, 0, 1);
    let s = leap_push(sq, c, s, r0, f0, 0, -1);
    let s = leap_push(sq, c, s, r0, f0, 1, 1);
    let s = leap_push(sq, c, s, r0, f0, 1, -1);
    let s = leap_push(sq, c, s, r0, f0, -1, 1);
    let s = leap_push(sq, c, s, r0, f0, -1, -1);
    s
}

/// The full generated destination sequence for the piece on (`r0`, `f0`):
/// the candidates of `rules::is_candidate`, in the generator's fixed order.
pub open spec fn gen_seq(sq: Squares, r0: int, f0: int) -> Seq<(usize, usize)> {
    match sq[r0][f0] {
        None => Seq::empty(),
        Some(p) => match p.p_type {
            PieceType::Pawn => pawn_seq(sq, p.p_color, r0, f0),
            PieceType::Rook => rook_seq(sq, p.p_color, r0, f0),
            PieceType::Knight => knight_seq(sq, p.p_color, r0, f0),
            PieceType::Bishop => bishop_seq(sq, p.p_color, r0, f0),
            PieceType::Queen => queen_seq(sq, p.p_color, r0, f0),
            PieceType::King => king_seq(sq, p.p_color, r0, f0),
        },
    }
}

/// What `pawn_seq` holds, read as a predicate: exactly the pawn candidates
/// of the movement model.
proof fn lemma_pawn_seq_contains(sq: Squares, c: PColor, r0: int, f0: int)
    ensures
        forall|d: (usize, usize)| #[trigger]
            pawn_seq(sq, c, r0, f0).contains(d) <==> pawn_candidate(
                sq,
                r0,
                f0,
                c,
                d.0 as int,
                d.1 as int,
            ),
{
}

impl Board {
    /// The ordered list of pseudo-legal destinations for the piece standing
    /// on (`rank`, `file`): exactly the candidates of `rules::is_candidate`,
    /// in the generator's fixed order `gen_seq`.
    pub fn moves_from(&self, rank: usize, file: usize) -> (moves: Vec<(usize, usize)>)
        requires
            rank < 8,
            file < 8,
            self.squares[rank as int][file as int] is Some,
        ensures
            forall|d: (usize, usize)| #[trigger]
                moves@.contains(d) <==> is_candidate(
                    self.squares,
                    rank as int,
                    file as int,
                    d.0 as int,
                    d.1 as int,
                ),
            moves@ == gen_seq(self.squares, rank as int, file as int),
    {
        let start_row = self.squares[rank];
        let piece = start_row[file].unwrap();
        proof {
            lemma_pawn_seq_contains(self.squares, piece.p_color, rank as int, file as int);
        }
        match piece.p_type {
            PieceType::Pawn => self.pawn_moves(rank, file, piece.p_color),
            PieceType::Rook => self.rook_moves(rank, file, piece.p_color),
            PieceType::Knight => self.knight_moves(rank, file, piece.p_color),
            PieceType::King => self.king_moves(rank, file, piece.p_color),
            PieceType::Bishop => self.bishop_moves(rank, file, piece.p_color),
            PieceType::Queen => self.queen_moves(rank, file, piece.p_color),
        }
    }

    /// The pseudo-legal destinations of the currently selected square, in
    /// generation order; empty when nothing is selected.
    pub fn move_generation(&self) -> (moves: Vec<(usize, usize)>)
        requires
            selection_ok(*self),
        ensures
            self.selected_piece is None ==> moves@.len() == 0,
            self.selected_piece matches Some((r, f)) ==> forall|d: (usize, usize)| #[trigger]
                moves@.contains(d) <==> is_candidate(
                    self.squares,
                    r as int,
                    f as int,
                    d.0 as int,
                    d.1 as int,
                ),
            self.selected_piece matches Some((r, f)) ==> moves@ == gen_seq(
                self.squares,
                r as int,
                f as int,
            ),
    {
        match self.selected_piece {
            Some((rank, file)) => self.moves_from(rank, file),
            None => Vec::new(),
        }
    }

    /// The pawn destinations for a pawn of color `c` on (`rank`, `file`),
    /// built in the order `pawn_seq` gives them.
    fn pawn_moves(&self, rank: usize, file: usize, c: PColor) -> (moves: Vec<(usize, usize)>)
        requires
            rank < 8,
            file < 8,
        ensures
            moves@ == pawn_seq(self.squares, c, rank as int, file as int),
    {
        let mut moves: Vec<(usize, usize)> = Vec::new();
        let start_row = self.squares[rank];
        let direction: i32 = match c {
            PColor::White => 1,
            PColor::Black => -1,
        };
        let new_rank = rank as i32 + direction;
        if new_rank >= 0 && new_rank < 8 {
            let nru = new_rank as usize;
            let forward_row = self.squares[nru];
            // Single push onto an empty square
            if forward_row[file].is_none() {
                moves.push((nru, file));
            }
            // Double push from the home rank, both squares empty
            if (rank == 1 && direction == 1) || (rank == 6 && direction == -1) {
                let two_rank = (rank as i32 + 2 * direction) as usize;
                let two_row = self.squares[two_rank];
                if two_row[file].is_none() && forward_row[file].is_none() {
                    moves.push((two_rank, file));
                }
            }
            // Diagonal capture toward file 0
            if file > 0 {
                if let Some(captured_piece) = forward_row[file - 1] {
                    if captured_piece.p_color != c {
                        moves.push((nru, file - 1));
                    }
                }
            }
            // Diagonal capture toward file 7
            if file < 7 {
                if let Some(captured_piece) = forward_row[file + 1] {
                    if captured_piece.p_color != c {
                        moves.push((nru, file + 1));
                    }
                }
            }
            // En-passant trigger: an adjacent enemy pawn on the pawn's own
            // rank offers the diagonal square ahead of it
            if (rank == 4 && direction == 1) || (rank == 3 && direction == -1) {
                if file > 0 {
                    if let Some(captured_piece) = start_row[file - 1] {
                        if captured_piece.p_color != c
                            && captured_piece.p_type == PieceType::Pawn {
                            moves.push((nru, file - 1));
                        }
                    }
                }
                if file < 7 {
                    if let Some(captured_piece) = start_row[file + 1] {
                        if captured_piece.p_color != c
                            && captured_piece.p_type == PieceType::Pawn {
                            moves.push((nru, file + 1));
                        }
                    }
                }
            }
        }
        moves
    }

    /// The rook destinations for color `c`, in `rook_seq` order.
    fn rook_moves(&self, rank: usize, file: usize, c: PColor) -> (moves: Vec<(usize, usize)>)
        requires
            rank < 8,
            file < 8,
        ensures
            forall|d: (usize, usize)| #[trigger]
                moves@.contains(d) <==> rook_candidate(
                    self.squares,
                    rank as int,
                    file as int,
                    c,
                    d.0 as int,
                    d.1 as int,
                ),
            moves@ == rook_seq(self.squares, c, rank as int, file as int),
    {
        let mut moves: Vec<(usize, usize)> = Vec::new();
        self.slide_ray(rank, file, c, 1, 0, &mut moves);
        self.slide_ray(rank, file, c, -1, 0, &mut moves);
        self.slide_ray(rank, file, c, 0, 1, &mut moves);
        self.slide_ray(rank, file, c, 0, -1, &mut moves);
        moves
    }

    /// The bishop destinations for color `c`, in `bishop_seq` order.
    fn bishop_moves(&self, rank: usize, file: usize, c: PColor) -> (moves: Vec<(usize, usize)>)
        requires
            rank < 8,
            file < 8,
        ensures
            forall|d: (usize, usize)| #[trigger]
                moves@.contains(d) <==> bishop_candidate(
                    self.squares,
                    rank as int,
                    file as int,
                    c,
                    d.0 as int,
                    d.1 as int,
                ),
            moves@ == bishop_seq(self.squares, c, rank as int, file as int),
    {
        let mut moves: Vec<(usize, usize)> = Vec::new();
        self.slide_ray(rank, file, c, 1, 1, &mut moves);
        self.slide_ray(rank, file, c, 1, -1, &mut moves);
        self.slide_ray(rank, file, c, -1, 1, &mut moves);
        self.slide_ray(rank, file, c, -1, -1, &mut moves);
        moves
    }

    /// The queen destinations for color `c`, in `queen_seq` order.
    fn queen_moves(&self, rank: usize, file: usize, c: PColor) -> (moves: Vec<(usize, usize)>)
        requires
            rank < 8,
            file < 8,
        ensures
            forall|d: (usize, usize)| #[trigger]
                moves@.contains(d) <==> rook_candidate(
                    self.squares,
                    rank as int,
                    file as int,
                    c,
                    d.0 as int,
                    d.1 as int,
                ) || bishop_candidate(
                    self.squares,
                    rank as int,
                    file as int,
                    c,
                    d.0 as int,
                    d.1 as int,
                ),
            moves@ == queen_seq(self.squares, c, rank as int, file as int),
    {
        let mut moves: Vec<(usize, usize)> = Vec::new();
        self.slide_ray(rank, file, c, 1, 0, &mut moves);
        self.slide_ray(rank, file, c, -1, 0, &mut moves);
        self.slide_ray(rank, file, c, 0, 1, &mut moves);
        self.slide_ray(rank, file, c, 0, -1, &mut moves);
        self.slide_ray(rank, file, c, 1, 1, &mut moves);
        self.slide_ray(rank, file, c, 1, -1, &mut moves);
        self.slide_ray(rank, file, c, -1, 1, &mut moves);
        self.slide_ray(rank, file, c, -1, -1, &mut moves);
        proof {
            let sq = self.squares;
            let r = rank as int;
            let f = file as int;
            assert(moves@ =~= rook_seq(sq, c, r, f) + bishop_seq(sq, c, r, f));
        }
        moves
    }

    /// The knight destinations for color `c`, in `knight_seq` order.
    fn knight_moves(&self, rank: usize, file: usize, c: PColor) -> (moves: Vec<(usize, usize)>)
        requires
            rank < 8,
            file < 8,
        ensures
            forall|d: (usize, usize)| #[trigger]
                moves@.contains(d) <==> knight_candidate(
                    self.squares,
                    rank as int,
                    file as int,
                    c,
                    d.0 as int,
                    d.1 as int,
                ),
            moves@ == knight_seq(self.squares, c, rank as int, file as int),
    {
        let mut moves: Vec<(usize, usize)> = Vec::new();
        self.try_leap(rank, file, c, 1, 2, &mut moves);
        self.try_leap(rank, file, c, 1, -2, &mut moves);
        self.try_leap(rank, file, c, -1, 2, &mut moves);
        self.try_leap(rank, file, c, -1, -2, &mut moves);
        self.try_leap(rank, file, c, 2, 1, &mut moves);
        self.try_leap(rank, file, c, 2, -1, &mut moves);
        self.try_leap(rank, file, c, -2, 1, &mut moves);
        self.try_leap(rank, file, c, -2, -1, &mut moves);
        moves
    }

    /// The king destinations for color `c`, in `king_seq` order.
    fn king_moves(&self, rank: usize, file: usize, c: PColor) -> (moves: Vec<(usize, usize)>)
        requires
            rank < 8,
            file < 8,
        ensures
            forall|d: (usize, usize)| #[trigger]
                moves@.contains(d) <==> king_candidate(
                    self.squares,
                    rank as int,
                    file as int,
                    c,
                    d.0 as int,
                    d.1 as int,
                ),
            moves@ == king_seq(self.squares, c, rank as int, file as int),
    {
        let mut moves: Vec<(usize, usize)> = Vec::new();
        self.try_leap(rank, file, c, 1, 0, &mut moves);
        self.try_leap(rank, file, c, -1, 0, &mut moves);
        self.try_leap(rank, file, c, 0, 1, &mut moves);
        self.try_leap(rank, file, c, 0, -1, &mut moves);
        self.try_leap(rank, file, c, 1, 1, &mut moves);
        self.try_leap(rank, file, c, 1, -1, &mut moves);
        self.try_leap(rank, file, c, -1, 1, &mut moves);
        self.try_leap(rank, file, c, -1, -1, &mut moves);
        moves
    }

    /// Appends the single-step destination (`r0` + `dr`, `f0` + `df`) when it
    /// is on the board and empty or an enemy capture for color `c`; used for
    /// the knight's and the king's fixed offsets.
    fn try_leap(
        &self,
        r0: usize,
        f0: usize,
        c: PColor,
        dr: i32,
        df: i32,
        moves: &mut Vec<(usize, usize)>,
    )
        requires
            r0 < 8,
            f0 < 8,
            -2 <= dr <= 2,
            -2 <= df <= 2,
        ensures
            forall|d: (usize, usize)| #[trigger]
                final(moves)@.contains(d) <==> old(moves)@.contains(d) || (d.0 == r0 + dr && d.1
                    == f0 + df && in_bounds(r0 + dr, f0 + df) && empty_or_enemy(
                    self.squares,
                    r0 + dr,
                    f0 + df,
                    c,
                )),
            final(moves)@ == leap_push(
                self.squares,
                c,
                old(moves)@,
                r0 as int,
                f0 as int,
                dr as int,
                df as int,
            ),
    {
        let new_rank = r0 as i32 + dr;
        let new_file = f0 as i32 + df;
        if new_rank >= 0 && new_rank < 8 && new_file >= 0 && new_file < 8 {
            let nr = new_rank as usize;
            let nf = new_file as usize;
            let row = self.squares[nr];
            match row[nf] {
                None => {
                    moves.push((nr, nf));
                },
                Some(captured_piece) => {
                    if captured_piece.p_color != c {
                        moves.push((nr, nf));
                    }
                },
            }
        }
    }

    /// Appends the destinations of a slide from (`r0`, `f0`) in unit
    /// direction (`dr`, `df`): every empty square walking outward, stopping
    /// at the first occupied square, which is appended exactly when it holds
    /// an enemy piece.
    #[verifier::rlimit(100)]
    fn slide_ray(
        &self,
        r0: usize,
        f0: usize,
        c: PColor,
        dr: i32,
        df: i32,
        moves: &mut Vec<(usize, usize)>,
    )
        requires
            r0 < 8,
            f0 < 8,
            -1 <= dr <= 1,
            -1 <= df <= 1,
            !(dr == 0 && df == 0),
        ensures
            forall|d: (usize, usize)| #[trigger]
                final(moves)@.contains(d) <==> old(moves)@.contains(d) || dir_candidate(
                    self.squares,
                    r0 as int,
                    f0 as int,
                    c,
                    dr as int,
                    df as int,
                    d.0 as int,
                    d.1 as int,
                ),
            final(moves)@ == old(moves)@ + ray_seq(
                self.squares,
                c,
                r0 as int,
                f0 as int,
                dr as int,
                df as int,
            ),
    {
        let ghost moves0 = moves@;
        let mut new_rank = r0 as i32 + dr;
        let mut new_file = f0 as i32 + df;
        while new_rank >= 0 && new_rank < 8 && new_file >= 0 && new_file < 8
            invariant_except_break
                r0 < 8,
                f0 < 8,
                -1 <= dr <= 1,
                -1 <= df <= 1,
                !(dr == 0 && df == 0),
                -1 <= new_rank <= 8,
                -1 <= new_file <= 8,
                ray_from(
                    r0 as int,
                    f0 as int,
                    dr as int,
                    df as int,
                    new_rank as int,
                    new_file as int,
                ),
                forall|r2: int, f2: int|
                    between_sq(r0 as int, f0 as int, new_rank as int, new_file as int, r2, f2)
                        ==> #[trigger] empty_at(self.squares, r2, f2),
                forall|d: (usize, usize)| #[trigger]
                    moves@.contains(d) <==> moves0.contains(d) || between_sq(
                        r0 as int,
                        f0 as int,
                        new_rank as int,
                        new_file as int,
                        d.0 as int,
                        d.1 as int,
                    ),
                moves@ + ray_seq(
                    self.squares,
                    c,
                    new_rank as int - dr as int,
                    new_file as int - df as int,
                    dr as int,
                    df as int,
                ) == moves0 + ray_seq(
                    self.squares,
                    c,
                    r0 as int,
                    f0 as int,
                    dr as int,
                    df as int,
                ),
            ensures
                forall|d: (usize, usize)| #[trigger]
                    moves@.contains(d) <==> moves0.contains(d) || dir_candidate(
                        self.squares,
                        r0 as int,
                        f0 as int,
                        c,
                        dr as int,
                        df as int,
                        d.0 as int,
                        d.1 as int,
                    ),
                moves@ == moves0 + ray_seq(
                    self.squares,
                    c,
                    r0 as int,
                    f0 as int,
                    dr as int,
                    df as int,
                ),
            decreases (
            if dr == 1 {
                8 - new_rank as int
            } else if dr == -1 {
                new_rank as int + 1
            } else if df == 1 {
                8 - new_file as int
            } else {
                new_file as int + 1
            }),
        {
            let ghost m_enter = moves@;
            let ghost prev_ray = ray_seq(
                self.squares,
                c,
                new_rank as int - dr as int,
                new_file as int - df as int,
                dr as int,
                df as int,
            );
            let nr = new_rank as usize;
            let nf = new_file as usize;
            let row = self.squares[nr];
            match row[nf] {
                None => {
                    moves.push((nr, nf));
                    proof {
                        let rest = ray_seq(
                            self.squares,
                            c,
                            new_rank as int,
                            new_file as int,
                            dr as int,
                            df as int,
                        );
                        assert(prev_ray == seq![(nr, nf)] + rest);
                        assert(m_enter.push((nr, nf)) + rest =~= m_enter + (seq![(nr, nf)] + rest));
                    }
                },
                Some(captured_piece) => {
                    if captured_piece.p_color != c {
                        moves.push((nr, nf));
                    }
                    proof {
                        let sq = self.squares;
                        let r0i = r0 as int;
                        let f0i = f0 as int;
                        let cr = new_rank as int;
                        let cf = new_file as int;
                        assert(!empty_at(sq, cr, cf));
                        if captured_piece.p_color != c {
                            assert(prev_ray == seq![(nr, nf)]);
                            assert(m_enter.push((nr, nf)) =~= m_enter + seq![(nr, nf)]);
                        } else {
                            assert(prev_ray == Seq::<(usize, usize)>::empty());
                            assert(m_enter + prev_ray =~= m_enter);
                        }
                        assert forall|d: (usize, usize)| #[trigger]
                            moves@.contains(d) <==> moves0.contains(d) || dir_candidate(
                                sq,
                                r0i,
                                f0i,
                                c,
                                dr as int,
                                df as int,
                                d.0 as int,
                                d.1 as int,
                            ) by {
                            let d0 = d.0 as int;
                            let d1 = d.1 as int;
                            if dir_candidate(sq, r0i, f0i, c, dr as int, df as int, d0, d1) {
                                // the destination is the stop square itself,
                                // short of it, or past it; past it the stop
                                // square would have to be empty
                                if d0 == cr && d1 == cf {
                                } else if between_sq(r0i, f0i, cr, cf, d0, d1) {
                                } else {
                                    assert(between_sq(r0i, f0i, d0, d1, cr, cf));
                                    assert(false);
                                }
                            }
                        }
                    }
                    break;
                },
            }
            new_rank += dr;
            new_file += df;
        }
    }
}

} // verus!
