//! The position itself: setup, selection, move application, copying and
//! piece lookup.

use chess::board::{Board, PColor, Piece, PieceType};

fn white(p_type: PieceType) -> Piece {
    Piece { p_type, p_color: PColor::White }
}

fn black(p_type: PieceType) -> Piece {
    Piece { p_type, p_color: PColor::Black }
}

fn boards_equal(a: &Board, b: &Board) -> bool {
    a.squares == b.squares
        && a.selected_piece == b.selected_piece
        && a.turn == b.turn
        && a.king_under_attack == b.king_under_attack
}

#[test]
fn initial_setup_standard_arrangement() {
    let board = Board::new();
    assert_eq!(board.turn, PColor::White);
    assert_eq!(board.selected_piece, None);
    assert_eq!(board.king_under_attack, [false, false]);

    let back = [
        PieceType::Rook,
        PieceType::Knight,
        PieceType::Bishop,
        PieceType::Queen,
        PieceType::King,
        PieceType::Bishop,
        PieceType::Knight,
        PieceType::Rook,
    ];
    for file in 0..8 {
        assert_eq!(board.squares[0][file], Some(white(back[file])));
        assert_eq!(board.squares[1][file], Some(white(PieceType::Pawn)));
        assert_eq!(board.squares[6][file], Some(black(PieceType::Pawn)));
        assert_eq!(board.squares[7][file], Some(black(back[file])));
    }
    for rank in 2..6 {
        for file in 0..8 {
            assert_eq!(board.squares[rank][file], None);
        }
    }
}

#[test]
fn make_move_flips_turn_and_clears_selection() {
    let mut board = Board::new();
    board.select(1, 4);
    board.make_move(3, 4);
    assert_eq!(board.turn, PColor::Black);
    assert_eq!(board.selected_piece, None);
    assert_eq!(board.squares[1][4], None);
    assert_eq!(board.squares[3][4], Some(white(PieceType::Pawn)));

    board.select(6, 4);
    board.make_move(4, 4);
    assert_eq!(board.turn, PColor::White);
    assert_eq!(board.selected_piece, None);
}

#[test]
fn make_move_captures_by_overwrite() {
    let mut board = Board::new();
    board.new_piece(black(PieceType::Knight), 3, 4);
    board.select(1, 4);
    // Not a pawn-legal capture, but make_move applies whatever the caller
    // asks for; candidate filtering happens before this layer.
    board.make_move(3, 4);
    assert_eq!(board.squares[3][4], Some(white(PieceType::Pawn)));
    assert_eq!(board.squares[1][4], None);
}

#[test]
fn make_move_without_selection_is_noop() {
    let mut board = Board::new();
    let snapshot = board.copy();
    board.make_move(4, 4);
    assert!(boards_equal(&board, &snapshot));
    assert_eq!(board.turn, PColor::White);
}

#[test]
fn second_make_move_is_noop() {
    let mut board = Board::new();
    board.select(1, 0);
    board.make_move(2, 0);
    let after_first = board.copy();
    board.make_move(5, 5);
    assert!(boards_equal(&board, &after_first));
}

#[test]
fn copy_is_independent() {
    let mut board = Board::new();
    let mut copied = board.copy();
    assert!(boards_equal(&board, &copied));
    copied.new_piece(white(PieceType::Queen), 4, 4);
    copied.turn = PColor::Black;
    assert_eq!(board.squares[4][4], None);
    assert_eq!(board.turn, PColor::White);
    board.select(0, 0);
    assert_eq!(copied.selected_piece, None);
}

#[test]
fn find_reports_first_match_in_scan_order() {
    let board = Board::new();
    // Ranks scan upward, files left to right: the rook on (0,0) comes first.
    assert_eq!(board.find(white(PieceType::Rook)), Some((0, 0)));
    assert_eq!(board.find(white(PieceType::King)), Some((0, 4)));
    assert_eq!(board.find(black(PieceType::Pawn)), Some((6, 0)));
}

#[test]
fn find_returns_none_when_absent() {
    let mut board = Board::new();
    board.squares[0][3] = None;
    assert_eq!(board.find(white(PieceType::Queen)), None);
}

#[test]
fn select_records_the_square() {
    let mut board = Board::new();
    board.select(6, 3);
    assert_eq!(board.selected_piece, Some((6, 3)));
}
