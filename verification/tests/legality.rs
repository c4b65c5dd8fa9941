//! Check detection and the legality filter.

use chess::board::{Board, PColor, Piece, PieceType};

fn white(p_type: PieceType) -> Piece {
    Piece { p_type, p_color: PColor::White }
}

fn black(p_type: PieceType) -> Piece {
    Piece { p_type, p_color: PColor::Black }
}

fn empty_board() -> Board {
    let mut board = Board::new();
    for rank in 0..8 {
        for file in 0..8 {
            board.squares[rank][file] = None;
        }
    }
    board
}

fn sorted(mut moves: Vec<(usize, usize)>) -> Vec<(usize, usize)> {
    moves.sort();
    moves
}

// in_check asks about the color that is *not* to move: the side that just
// played. Setting turn to Black asks whether White stands in check.

#[test]
fn rook_gives_check_along_clear_rank() {
    let mut board = empty_board();
    board.new_piece(white(PieceType::King), 0, 0);
    board.new_piece(black(PieceType::Rook), 0, 7);
    board.turn = PColor::Black;
    assert!(board.in_check());
}

#[test]
fn blocked_rook_gives_no_check() {
    let mut board = empty_board();
    board.new_piece(white(PieceType::King), 0, 0);
    board.new_piece(black(PieceType::Rook), 0, 7);
    board.new_piece(white(PieceType::Bishop), 0, 3);
    board.turn = PColor::Black;
    assert!(!board.in_check());
}

#[test]
fn missing_king_counts_as_not_in_check() {
    let mut board = empty_board();
    board.new_piece(black(PieceType::Rook), 0, 7);
    board.turn = PColor::Black;
    assert!(!board.in_check());
}

#[test]
fn initial_position_no_check() {
    let mut board = Board::new();
    board.turn = PColor::Black;
    assert!(!board.in_check());
    board.turn = PColor::White;
    assert!(!board.in_check());
}

#[test]
fn pawn_gives_check_diagonally_not_ahead() {
    // Check detection reuses candidate generation unchanged. A push needs an
    // empty destination, so a king standing straight ahead of an enemy pawn
    // blocks the push and is not in check; the diagonal squares are attacks.
    let mut board = empty_board();
    board.new_piece(black(PieceType::King), 5, 4);
    board.new_piece(white(PieceType::Pawn), 4, 4);
    board.turn = PColor::White;
    assert!(!board.in_check());

    let mut diagonal = empty_board();
    diagonal.new_piece(black(PieceType::King), 5, 3);
    diagonal.new_piece(white(PieceType::Pawn), 4, 4);
    diagonal.turn = PColor::White;
    assert!(diagonal.in_check());
}

#[test]
fn legality_filter_rejects_self_check() {
    // Moving the rook off the file would expose the White king to the Black
    // rook behind it; only destinations that keep the pin are legal.
    let mut board = empty_board();
    board.new_piece(white(PieceType::King), 0, 4);
    board.new_piece(white(PieceType::Rook), 1, 4);
    board.new_piece(black(PieceType::Rook), 7, 4);
    board.new_piece(black(PieceType::King), 7, 0);
    board.select(1, 4);

    let candidates = board.move_generation();
    assert!(candidates.contains(&(1, 0)));

    let legal = board.legal_moves();
    assert!(!legal.contains(&(1, 0)));
    assert!(!legal.contains(&(1, 7)));
    assert_eq!(
        sorted(legal),
        vec![(2, 4), (3, 4), (4, 4), (5, 4), (6, 4), (7, 4)]
    );
}

#[test]
fn king_cannot_step_into_attack() {
    let mut board = empty_board();
    board.new_piece(white(PieceType::King), 0, 0);
    board.new_piece(black(PieceType::Rook), 1, 7);
    board.select(0, 0);

    let candidates = sorted(board.move_generation());
    assert_eq!(candidates, vec![(0, 1), (1, 0), (1, 1)]);

    let legal = board.legal_moves();
    assert_eq!(sorted(legal), vec![(0, 1)]);
}

#[test]
fn unpinned_piece_keeps_all_candidates() {
    let mut board = empty_board();
    board.new_piece(white(PieceType::King), 0, 4);
    board.new_piece(white(PieceType::Knight), 3, 3);
    board.new_piece(black(PieceType::King), 7, 4);
    board.select(3, 3);
    assert_eq!(
        sorted(board.legal_moves()),
        sorted(board.move_generation())
    );
}

#[test]
fn checked_king_must_leave_the_line() {
    let mut board = empty_board();
    board.new_piece(white(PieceType::King), 0, 4);
    board.new_piece(black(PieceType::Rook), 7, 4);
    board.select(0, 4);
    // Staying on file 4 stays in check; every step off the file escapes
    assert_eq!(
        sorted(board.legal_moves()),
        vec![(0, 3), (0, 5), (1, 3), (1, 5)]
    );
}

#[test]
fn legal_moves_never_mutates_the_position() {
    let mut board = Board::new();
    board.select(0, 1);
    let snapshot = board.copy();
    let _ = board.legal_moves();
    assert_eq!(board.squares, snapshot.squares);
    assert_eq!(board.selected_piece, Some((0, 1)));
    assert_eq!(board.turn, snapshot.turn);
}
