//! Pseudo-legal move generation, piece by piece.

use chess::board::{Board, PColor, Piece, PieceType};

fn white(p_type: PieceType) -> Piece {
    Piece { p_type, p_color: PColor::White }
}

fn black(p_type: PieceType) -> Piece {
    Piece { p_type, p_color: PColor::Black }
}

fn empty_board() -> Board {
    let mut board = Board::new();
    for rank in 0..8 {
        for file in 0..8 {
            board.squares[rank][file] = None;
        }
    }
    board
}

fn sorted(mut moves: Vec<(usize, usize)>) -> Vec<(usize, usize)> {
    moves.sort();
    moves
}

#[test]
fn initial_pawn_two_candidates_every_file() {
    for file in 0..8 {
        let mut board = Board::new();
        board.select(1, file);
        let moves = board.move_generation();
        assert_eq!(moves, vec![(2, file), (3, file)]);
    }
}

#[test]
fn pawn_blocked_directly_ahead() {
    let mut board = empty_board();
    board.new_piece(white(PieceType::Pawn), 1, 4);
    board.new_piece(black(PieceType::Rook), 2, 4);
    board.select(1, 4);
    assert_eq!(board.move_generation(), vec![]);
}

#[test]
fn pawn_double_step_blocked_at_far_square() {
    let mut board = empty_board();
    board.new_piece(white(PieceType::Pawn), 1, 4);
    board.new_piece(black(PieceType::Rook), 3, 4);
    board.select(1, 4);
    assert_eq!(board.move_generation(), vec![(2, 4)]);
}

#[test]
fn pawn_diagonal_captures() {
    let mut board = empty_board();
    board.new_piece(white(PieceType::Pawn), 3, 4);
    board.new_piece(black(PieceType::Knight), 4, 3);
    board.new_piece(black(PieceType::Knight), 4, 5);
    board.new_piece(white(PieceType::Knight), 4, 4);
    board.select(3, 4);
    assert_eq!(sorted(board.move_generation()), vec![(4, 3), (4, 5)]);
}

#[test]
fn pawn_does_not_capture_own_color() {
    let mut board = empty_board();
    board.new_piece(white(PieceType::Pawn), 3, 4);
    board.new_piece(white(PieceType::Knight), 4, 3);
    board.select(3, 4);
    assert_eq!(board.move_generation(), vec![(4, 4)]);
}

#[test]
fn black_pawn_moves_down_the_board() {
    let mut board = Board::new();
    board.select(6, 2);
    let moves = board.move_generation();
    assert_eq!(moves, vec![(5, 2), (4, 2)]);
}

#[test]
fn en_passant_candidate_offered() {
    // A Black pawn beside a White pawn on rank 4 makes the diagonal square
    // ahead of it a candidate, along with the ordinary forward push.
    let mut board = empty_board();
    board.new_piece(white(PieceType::Pawn), 4, 4);
    board.new_piece(black(PieceType::Pawn), 4, 3);
    board.select(4, 4);
    assert_eq!(sorted(board.move_generation()), vec![(5, 3), (5, 4)]);
}

#[test]
fn en_passant_needs_a_pawn_not_any_piece() {
    let mut board = empty_board();
    board.new_piece(white(PieceType::Pawn), 4, 4);
    board.new_piece(black(PieceType::Rook), 4, 3);
    board.select(4, 4);
    assert_eq!(board.move_generation(), vec![(5, 4)]);
}

#[test]
fn rook_blocked_by_friendly_piece() {
    // A rook on (0,0) with a friendly piece on (0,1) gets nothing at all in
    // the file-increasing direction.
    let mut board = empty_board();
    board.new_piece(white(PieceType::Rook), 0, 0);
    board.new_piece(white(PieceType::Pawn), 0, 1);
    board.select(0, 0);
    let moves = board.move_generation();
    assert!(moves.iter().all(|&(r, f)| !(r == 0 && f >= 1)));
    assert_eq!(
        sorted(moves),
        vec![(1, 0), (2, 0), (3, 0), (4, 0), (5, 0), (6, 0), (7, 0)]
    );
}

#[test]
fn rook_capture_then_stop() {
    let mut board = empty_board();
    board.new_piece(white(PieceType::Rook), 0, 0);
    board.new_piece(black(PieceType::Pawn), 0, 3);
    board.select(0, 0);
    let moves = board.move_generation();
    assert!(moves.contains(&(0, 3)));
    assert!(!moves.contains(&(0, 4)));
    assert!(!moves.contains(&(0, 5)));
    assert!(!moves.contains(&(0, 6)));
    assert!(!moves.contains(&(0, 7)));
    assert_eq!(
        sorted(moves),
        vec![
            (0, 1),
            (0, 2),
            (0, 3),
            (1, 0),
            (2, 0),
            (3, 0),
            (4, 0),
            (5, 0),
            (6, 0),
            (7, 0)
        ]
    );
}

#[test]
fn knight_ignores_blocking() {
    // Friendly pieces on all eight adjacent squares: the knight still has
    // its full set of in-bounds jump destinations.
    let mut board = empty_board();
    board.new_piece(white(PieceType::Knight), 3, 3);
    for (r, f) in [
        (2, 2),
        (2, 3),
        (2, 4),
        (3, 2),
        (3, 4),
        (4, 2),
        (4, 3),
        (4, 4),
    ] {
        board.new_piece(white(PieceType::Pawn), r, f);
    }
    board.select(3, 3);
    assert_eq!(
        sorted(board.move_generation()),
        vec![
            (1, 2),
            (1, 4),
            (2, 1),
            (2, 5),
            (4, 1),
            (4, 5),
            (5, 2),
            (5, 4)
        ]
    );
}

#[test]
fn knight_on_the_rim_clips_to_the_board() {
    let mut board = empty_board();
    board.new_piece(black(PieceType::Knight), 0, 0);
    board.select(0, 0);
    assert_eq!(sorted(board.move_generation()), vec![(1, 2), (2, 1)]);
}

#[test]
fn bishop_slides_and_captures() {
    let mut board = empty_board();
    board.new_piece(white(PieceType::Bishop), 3, 3);
    board.new_piece(black(PieceType::Pawn), 5, 5);
    board.new_piece(white(PieceType::Pawn), 1, 1);
    board.select(3, 3);
    assert_eq!(
        sorted(board.move_generation()),
        vec![
            (0, 6),
            (1, 5),
            (2, 2),
            (2, 4),
            (4, 2),
            (4, 4),
            (5, 1),
            (5, 5),
            (6, 0)
        ]
    );
}

#[test]
fn queen_is_rook_plus_bishop() {
    let mut board = empty_board();
    board.new_piece(white(PieceType::Queen), 0, 0);
    board.select(0, 0);
    let queen_moves = sorted(board.move_generation());

    let mut expected: Vec<(usize, usize)> = Vec::new();
    for i in 1..8 {
        expected.push((0, i));
        expected.push((i, 0));
        expected.push((i, i));
    }
    assert_eq!(queen_moves, sorted(expected));
}

#[test]
fn king_single_steps() {
    let mut board = empty_board();
    board.new_piece(white(PieceType::King), 0, 4);
    board.new_piece(white(PieceType::Pawn), 1, 4);
    board.new_piece(black(PieceType::Pawn), 1, 5);
    board.select(0, 4);
    assert_eq!(sorted(board.move_generation()), vec![(0, 3), (0, 5), (1, 3), (1, 5)]);
}

#[test]
fn generation_order_is_fixed() {
    // Sliding pieces walk their directions in a set order; leapers try
    // their offsets in a set order.
    let mut board = empty_board();
    board.new_piece(white(PieceType::Rook), 0, 0);
    board.select(0, 0);
    assert_eq!(
        board.move_generation(),
        vec![
            (1, 0),
            (2, 0),
            (3, 0),
            (4, 0),
            (5, 0),
            (6, 0),
            (7, 0),
            (0, 1),
            (0, 2),
            (0, 3),
            (0, 4),
            (0, 5),
            (0, 6),
            (0, 7)
        ]
    );

    let mut board = empty_board();
    board.new_piece(black(PieceType::Knight), 3, 3);
    board.select(3, 3);
    assert_eq!(
        board.move_generation(),
        vec![
            (4, 5),
            (4, 1),
            (2, 5),
            (2, 1),
            (5, 4),
            (5, 2),
            (1, 4),
            (1, 2)
        ]
    );
}

#[test]
fn no_selection_generates_nothing() {
    let board = Board::new();
    assert_eq!(board.move_generation(), vec![]);
    assert_eq!(board.legal_moves(), vec![]);
}
