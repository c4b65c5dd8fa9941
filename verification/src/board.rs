//! The position: an 8-by-8 grid of optional pieces, the side to move, and the
//! caller's current selection.

use vstd::array::spec_array_update;
use vstd::prelude::*;

verus! {

/// The color of a piece, and of the player who owns it.
#[derive(Copy, Clone, Debug, PartialEq, Eq, Structural)]
pub enum PColor {
    White,
    Black,
}

/// The kind of a piece, which decides its movement rule.
#[derive(Copy, Clone, Debug, PartialEq, Eq, Structural)]
pub enum PieceType {
    Pawn,
    Rook,
    Knight,
    Bishop,
    Queen,
    King,
}

/// A piece: a kind together with a color. Pieces are plain values with no
/// identity beyond kind, color and the square they stand on.
#[derive(Copy, Clone, Debug, PartialEq, Eq, Structural)]
pub struct Piece {
    pub p_type: PieceType,
    pub p_color: PColor,
}

/// The contents of the 64 squares, indexed first by rank (0 is White's home
/// rank, 7 is Black's) and then by file.
pub type Squares = [[Option<Piece>; 8]; 8];

/// A chess position: the square contents, the side to move, the square the
/// caller has selected (if any), and a per-color check flag that is kept in
/// the data model but never consulted by the rules; check is always derived
/// on demand.
pub struct Board {
    pub squares: Squares,
    pub selected_piece: Option<(usize, usize)>,
    pub turn: PColor,
    pub king_under_attack: [bool; 2],
}

/// The coordinate pair (`r`, `f`) names a square of the board.
pub open spec fn in_bounds(r: int, f: int) -> bool {
    0 <= r < 8 && 0 <= f < 8
}

/// The color that moves after `c`.
pub open spec fn opposite(c: PColor) -> PColor {
    match c {
        PColor::White => PColor::Black,
        PColor::Black => PColor::White,
    }
}

/// The king of color `c`.
pub open spec fn king_of(c: PColor) -> Piece {
    Piece { p_type: PieceType::King, p_color: c }
}

/// The piece standing on file `f` of color `c`'s home rank in the standard
/// starting arrangement.
pub open spec fn back_rank(f: int, c: PColor) -> Piece {
    if f == 0 || f == 7 {
        Piece { p_type: PieceType::Rook, p_color: c }
    } else if f == 1 || f == 6 {
        Piece { p_type: PieceType::Knight, p_color: c }
    } else if f == 2 || f == 5 {
        Piece { p_type: PieceType::Bishop, p_color: c }
    } else if f == 3 {
        Piece { p_type: PieceType::Queen, p_color: c }
    } else {
        Piece { p_type: PieceType::King, p_color: c }
    }
}

/// The contents of square (`r`, `f`) in the standard starting arrangement:
/// White's pieces on ranks 0 and 1, Black's on ranks 6 and 7.
pub open spec fn initial_piece_at(r: int, f: int) -> Option<Piece> {
    if r == 0 {
        Some(back_rank(f, PColor::White))
    } else if r == 1 {
        Some(Piece { p_type: PieceType::Pawn, p_color: PColor::White })
    } else if r == 6 {
        Some(Piece { p_type: PieceType::Pawn, p_color: PColor::Black })
    } else if r == 7 {
        Some(back_rank(f, PColor::Black))
    } else {
        None
    }
}

/// The square contents after writing `v` at (`r`, `f`).
pub open spec fn squares_set(sq: Squares, r: int, f: int, v: Option<Piece>) -> Squares {
    spec_array_update(sq, r, spec_array_update(sq[r], f, v))
}

/// The square contents after the piece on (`sr`, `sf`) moves to (`r`, `f`):
/// the source square is emptied and the destination square is overwritten
/// with whatever stood on the source. A capture happens by overwrite and
/// leaves no other trace.
pub open spec fn squares_moved(sq: Squares, sr: int, sf: int, r: int, f: int) -> Squares {
    squares_set(squares_set(sq, sr, sf, None), r, f, sq[sr][sf])
}

/// The position after `make_move(r, f)`: with a pending selection the
/// selected square's contents move to (`r`, `f`), the selection is cleared
/// and the turn passes to the other color; without one nothing changes.
pub open spec fn apply_move(b: Board, r: int, f: int) -> Board {
    match b.selected_piece {
        None => b,
        Some((sr, sf)) => Board {
            squares: squares_moved(b.squares, sr as int, sf as int, r, f),
            selected_piece: None,
            turn: opposite(b.turn),
            king_under_attack: b.king_under_attack,
        },
    }
}

/// Square-by-square reading of `squares_moved`: the destination takes the
/// source's old contents, the source empties, and every other square keeps
/// its contents (also when source and destination coincide).
pub proof fn lemma_squares_moved(sq: Squares, sr: int, sf: int, r: int, f: int)
    requires
        in_bounds(sr, sf),
        in_bounds(r, f),
    ensures
        forall|r2: int, f2: int|
            in_bounds(r2, f2) ==> #[trigger] squares_moved(sq, sr, sf, r, f)[r2][f2] == (if r2 == r
                && f2 == f {
                sq[sr][sf]
            } else if r2 == sr && f2 == sf {
                None
            } else {
                sq[r2][f2]
            }),
{
}

/// Scans the squares in rank-major order, starting at square number `i`
/// (rank `i / 8`, file `i % 8`), and names the first square holding exactly
/// `p`; `None` if the scan runs out.
pub open spec fn find_from(sq: Squares, p: Piece, i: int) -> Option<(usize, usize)>
    decreases 64 - i,
{
    if i < 0 || i >= 64 {
        None
    } else if sq[i / 8][i % 8] == Some(p) {
        Some(((i / 8) as usize, (i % 8) as usize))
    } else {
        find_from(sq, p, i + 1)
    }
}

/// A successful scan names a square of the board that holds the piece it
/// looked for.
pub proof fn lemma_find_from_sound(sq: Squares, p: Piece, i: int, r: usize, f: usize)
    requires
        find_from(sq, p, i) == Some((r, f)),
    ensures
        r < 8,
        f < 8,
        sq[r as int][f as int] == Some(p),
    decreases 64 - i,
{
    if 0 <= i < 64 && sq[i / 8][i % 8] == Some(p) {
    } else {
        lemma_find_from_sound(sq, p, i + 1, r, f);
    }
}

/// A scan that comes back empty visited every square from its start on, so
/// none of them holds the piece.
pub proof fn lemma_find_from_misses(sq: Squares, p: Piece, i: int, r: int, f: int)
    requires
        0 <= i,
        i <= 8 * r + f,
        in_bounds(r, f),
        find_from(sq, p, i) is None,
    ensures
        sq[r][f] != Some(p),
    decreases 64 - i,
{
    if i == 8 * r + f {
        assert(i / 8 == r && i % 8 == f) by (nonlinear_arith)
            requires
                i == 8 * r + f,
                0 <= r < 8,
                0 <= f < 8,
        ;
    } else {
        lemma_find_from_misses(sq, p, i + 1, r, f);
    }
}

/// When a selection is present it must name a square of the board that holds
/// a piece; the move generator reads that piece without re-checking.
pub open spec fn selection_ok(b: Board) -> bool {
    match b.selected_piece {
        None => true,
        Some((r, f)) => r < 8 && f < 8 && b.squares[r as int][f as int] is Some,
    }
}

impl Piece {
    fn new_white(p_type: PieceType) -> (p: Piece)
        ensures
            p == (Piece { p_type, p_color: PColor::White }),
    {
        Piece { p_type, p_color: PColor::White }
    }

    fn new_black(p_type: PieceType) -> (p: Piece)
        ensures
            p == (Piece { p_type, p_color: PColor::Black }),
    {
        Piece { p_type, p_color: PColor::Black }
    }
}

impl Board {
    /// The standard starting position: White to move, nothing selected.
    pub fn new() -> (board: Board)
        ensures
            forall|r: int, f: int|
                in_bounds(r, f) ==> #[trigger] board.squares[r][f] == initial_piece_at(r, f),
            board.selected_piece is None,
            board.turn == PColor::White,
            board.king_under_attack[0] == false,
            board.king_under_attack[1] == false,
    {
        let mut board = Board {
            squares: [[None; 8]; 8],
            selected_piece: None,
            turn: PColor::White,
            king_under_attack: [false; 2],
        };

        let mut file: usize = 0;
        while file < 8
            invariant
                file <= 8,
                forall|f: int|
                    0 <= f < file ==> #[trigger] board.squares[1][f] == Some(
                        Piece { p_type: PieceType::Pawn, p_color: PColor::White },
                    ),
                forall|r: int, f: int|
                    in_bounds(r, f) && !(r == 1 && f < file) ==> #[trigger] board.squares[r][f]
                        is None,
                board.selected_piece is None,
                board.turn == PColor::White,
                board.king_under_attack[0] == false,
                board.king_under_attack[1] == false,
            decreases 8 - file,
        {
            board.new_piece(Piece::new_white(PieceType::Pawn), 1, file);
            file += 1;
        }
        board.new_piece(Piece::new_white(PieceType::Rook), 0, 0);
        board.new_piece(Piece::new_white(PieceType::Rook), 0, 7);
        board.new_piece(Piece::new_white(PieceType::Knight), 0, 1);
        board.new_piece(Piece::new_white(PieceType::Knight), 0, 6);
        board.new_piece(Piece::new_white(PieceType::Bishop), 0, 2);
        board.new_piece(Piece::new_white(PieceType::Bishop), 0, 5);
        board.new_piece(Piece::new_white(PieceType::Queen), 0, 3);
        board.new_piece(Piece::new_white(PieceType::King), 0, 4);

        let mut file: usize = 0;
        while file < 8
            invariant
                file <= 8,
                forall|f: int|
                    0 <= f < file ==> #[trigger] board.squares[6][f] == Some(
                        Piece { p_type: PieceType::Pawn, p_color: PColor::Black },
                    ),
                forall|r: int, f: int|
                    in_bounds(r, f) && r != 6 && (r == 0 || r == 1) ==> #[trigger] board.squares[r][f]
                        == initial_piece_at(r, f),
                forall|r: int, f: int|
                    in_bounds(r, f) && !(r == 0 || r == 1) && !(r == 6 && f < file)
                        ==> #[trigger] board.squares[r][f] is None,
                board.selected_piece is None,
                board.turn == PColor::White,
                board.king_under_attack[0] == false,
                board.king_under_attack[1] == false,
            decreases 8 - file,
        {
            board.new_piece(Piece::new_black(PieceType::Pawn), 6, file);
            file += 1;
        }
        board.new_piece(Piece::new_black(PieceType::Rook), 7, 0);
        board.new_piece(Piece::new_black(PieceType::Rook), 7, 7);
        board.new_piece(Piece::new_black(PieceType::Knight), 7, 1);
        board.new_piece(Piece::new_black(PieceType::Knight), 7, 6);
        board.new_piece(Piece::new_black(PieceType::Bishop), 7, 2);
        board.new_piece(Piece::new_black(PieceType::Bishop), 7, 5);
        board.new_piece(Piece::new_black(PieceType::Queen), 7, 3);
        board.new_piece(Piece::new_black(PieceType::King), 7, 4);

        board
    }

    /// Overwrites one square, leaving every other square and the rest of the
    /// position alone.
    fn set_square(&mut self, rank: usize, file: usize, v: Option<Piece>)
        requires
            rank < 8,
            file < 8,
        ensures
            final(self).squares[rank as int][file as int] == v,
            forall|r: int, f: int|
                in_bounds(r, f) && !(r == rank && f == file)
                    ==> #[trigger] final(self).squares[r][f] == old(self).squares[r][f],
            final(self).selected_piece == old(self).selected_piece,
            final(self).turn == old(self).turn,
            final(self).king_under_attack == old(self).king_under_attack,
    {
        let mut row = self.squares[rank];
        row[file] = v;
        self.squares[rank] = row;
    }

    /// Unconditionally puts `piece` on the square (`rank`, `file`); used
    /// during setup and available to callers that stage a position.
    pub fn new_piece(&mut self, piece: Piece, rank: usize, file: usize)
        requires
            rank < 8,
            file < 8,
        ensures
            final(self).squares[rank as int][file as int] == Some(piece),
            forall|r: int, f: int|
                in_bounds(r, f) && !(r == rank && f == file)
                    ==> #[trigger] final(self).squares[r][f] == old(self).squares[r][f],
            final(self).selected_piece == old(self).selected_piece,
            final(self).turn == old(self).turn,
            final(self).king_under_attack == old(self).king_under_attack,
    {
        self.set_square(rank, file, Some(piece));
    }

    /// Records a pending square. No validation happens here: the caller is
    /// responsible for selecting a square owned by the side to move.
    pub fn select(&mut self, rank: usize, file: usize)
        ensures
            final(self).selected_piece == Some((rank, file)),
            final(self).squares == old(self).squares,
            final(self).turn == old(self).turn,
            final(self).king_under_attack == old(self).king_under_attack,
    {
        self.selected_piece = Some((rank, file));
    }

    /// If a selection is pending, moves the selected square's contents to
    /// (`rank`, `file`) — overwriting whatever was there — clears the
    /// selection and flips the side to move. With no selection this is a
    /// no-op with no observable effect. An en-passant capture is not
    /// special-cased: only the destination square is overwritten, so a
    /// caller that plays one clears the passed-by pawn's square itself.
    pub fn make_move(&mut self, rank: usize, file: usize)
        requires
            rank < 8,
            file < 8,
            match old(self).selected_piece {
                None => true,
                Some((sr, sf)) => sr < 8 && sf < 8,
            },
        ensures
            *final(self) == apply_move(*old(self), rank as int, file as int),
    {
        if let Some((selected_rank, selected_file)) = self.selected_piece {
            let row = self.squares[selected_rank];
            let piece_to_move = row[selected_file];

            self.set_square(selected_rank, selected_file, None);
            self.set_square(rank, file, piece_to_move);

            self.selected_piece = None;

            self.turn = match self.turn {
                PColor::White => PColor::Black,
                PColor::Black => PColor::White,
            };

            proof {
                let m = apply_move(*old(self), rank as int, file as int);
                lemma_squares_moved(
                    old(self).squares,
                    selected_rank as int,
                    selected_file as int,
                    rank as int,
                    file as int,
                );
                assert forall|r2: int| 0 <= r2 < 8 implies self.squares[r2] =~= m.squares[r2] by {
                    assert(forall|f2: int|
                        0 <= f2 < 8 ==> #[trigger] self.squares[r2][f2] == m.squares[r2][f2]);
                }
                assert(self.squares =~= m.squares);
            }
        }
    }

    /// The first square, scanning rank 0 upward and each rank file 0 upward,
    /// that holds exactly `piece_to_find`: `Some` of a square holding the
    /// piece whenever any square does, `None` exactly when none does.
    pub fn find(&self, piece_to_find: Piece) -> (res: Option<(usize, usize)>)
        ensures
            res == find_from(self.squares, piece_to_find, 0),
            res is None ==> forall|r: int, f: int|
                in_bounds(r, f) ==> #[trigger] self.squares[r][f] != Some(piece_to_find),
            res matches Some((r, f)) ==> r < 8 && f < 8 && self.squares[r as int][f as int]
                == Some(piece_to_find),
    {
        proof {
            let sq = self.squares;
            let found = find_from(sq, piece_to_find, 0);
            match found {
                None => {
                    assert forall|r: int, f: int| in_bounds(r, f) implies #[trigger] sq[r][f]
                        != Some(piece_to_find) by {
                        lemma_find_from_misses(sq, piece_to_find, 0, r, f);
                    }
                },
                Some((r, f)) => {
                    lemma_find_from_sound(sq, piece_to_find, 0, r, f);
                },
            }
        }
        let mut rank: usize = 0;
        while rank < 8
            invariant
                rank <= 8,
                find_from(self.squares, piece_to_find, 0) == find_from(
                    self.squares,
                    piece_to_find,
                    8 * rank,
                ),
            decreases 8 - rank,
        {
            let mut file: usize = 0;
            while file < 8
                invariant
                    rank < 8,
                    file <= 8,
                    find_from(self.squares, piece_to_find, 0) == find_from(
                        self.squares,
                        piece_to_find,
                        8 * rank + file,
                    ),
                decreases 8 - file,
            {
                proof {
                    assert((8 * rank + file) / 8 == rank as int && (8 * rank + file) % 8
                        == file as int) by (nonlinear_arith)
                        requires
                            rank < 8,
                            file < 8,
                    ;
                }
                let row = self.squares[rank];
                if let Some(piece) = row[file] {
                    if piece == piece_to_find {
                        return Some((rank, file));
                    }
                }
                file += 1;
            }
            rank += 1;
        }
        None
    }

    /// An independent deep copy of the square contents, selection and side to
    /// move. The check flags are reset, exactly as a freshly built board has
    /// them; nothing derives state from them.
    pub fn copy(&self) -> (b: Board)
        ensures
            b.squares == self.squares,
            b.selected_piece == self.selected_piece,
            b.turn == self.turn,
            b.king_under_attack[0] == false,
            b.king_under_attack[1] == false,
    {
        Board {
            squares: self.squares,
            selected_piece: self.selected_piece,
            turn: self.turn,
            king_under_attack: [false, false],
        }
    }
}

} // verus!
