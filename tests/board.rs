use rust_tetris::board::{is_filled, not_playable_piece_to_cell, playable_piece_to_cell, TetrisBoard, TetrisCell};
use rust_tetris::enums::{PlayableTetrisPieceType, TetrisPieceType};

fn load_board(board: &mut TetrisBoard, s: &str) {
    let c = board.cols;

    for (i, ch) in s.chars().enumerate() {
        let i = i as isize;
        match ch {
            ' ' => board.clear(i / c, i % c),
            '*' => board.set(
                i / c,
                i % c,
                TetrisPieceType::Playable(PlayableTetrisPieceType::O),
            ),
            _ => unreachable!(),
        }
    }
}

#[test]
fn board_test_remove_rows() {
    let mut board = TetrisBoard::new(5, 3);

    load_board(&mut board, "     *  *******");

    println!("{:?}", board);
    println!("-----------");

    let ranges = board.completed_rows();
    board.remove_ranges(ranges, Some(5));

    println!("{:?}", board);
    println!("-----------");

    for i in 0..5 {
        for j in 0..3 {
            if (i == 3 || i == 4) && j == 2 {
                assert!(is_filled(board.get(i, j)));
            } else {
                assert!(!is_filled(board.get(i, j)));
            }
        }
    }
}

#[test]
fn board_test_remove_rows3() {
    let mut board = TetrisBoard::new(5, 3);

    load_board(&mut board, "      *********");

    println!("{:?}", board);
    println!("-----------");

    let ranges = board.completed_rows();
    board.remove_ranges(ranges, Some(5));

    println!("{:?}", board);
    println!("-----------");

    for i in 0..5 {
        for j in 0..3 {
            assert!(!is_filled(board.get(i, j)));
        }
    }
}

#[test]
fn full_clear_empties_the_board() {
    let mut board = TetrisBoard::new(4, 3);
    load_board(&mut board, "************");
    assert!(!board.is_empty());
    let ranges = board.completed_rows();
    assert_eq!(ranges, vec![(3, -1)]);
    board.remove_ranges(ranges, Some(4));
    assert!(board.is_empty());
}

#[test]
fn two_separate_blocks_collapse() {
    let mut board = TetrisBoard::new(6, 2);
    load_board(&mut board, " **** **** *");
    let ranges = board.completed_rows();
    assert_eq!(ranges, vec![(4, 2), (1, 0)]);
    board.remove_ranges(ranges, Some(6));
    // survivors, top to bottom: " *", "* ", " *" land in rows 3, 4, 5
    for i in 0..3 {
        for j in 0..2 {
            assert!(!board.is_set(i, j));
        }
    }
    assert!(!board.is_set(3, 0) && board.is_set(3, 1));
    assert!(board.is_set(4, 0) && !board.is_set(4, 1));
    assert!(!board.is_set(5, 0) && board.is_set(5, 1));
}

#[test]
fn default_shift_only_clears_the_block() {
    let mut board = TetrisBoard::new(5, 2);
    load_board(&mut board, "*   ** ***");
    // rows: 0 "* ", 1 "  ", 2 "**", 3 " *", 4 "**"
    board.remove_rows(2, 1, None);
    assert!(board.is_set(0, 0));
    assert!(!board.is_set(2, 0) && !board.is_set(2, 1));
    assert!(board.is_set(3, 1) && board.is_set(4, 0));
}

#[test]
fn remove_rows_with_full_shift() {
    let mut board = TetrisBoard::new(4, 1);
    load_board(&mut board, "* **");
    board.remove_rows(3, 2, Some(4));
    assert!(!board.is_set(0, 0));
    assert!(board.is_set(1, 0));
    assert!(!board.is_set(2, 0));
    assert!(board.is_set(3, 0));
}

#[test]
fn is_set_is_false_off_the_board() {
    let mut board = TetrisBoard::new(2, 2);
    load_board(&mut board, "****");
    assert!(board.is_set(1, 1));
    assert!(!board.is_set(-1, 0));
    assert!(!board.is_set(0, -1));
    assert!(!board.is_set(2, 0));
    assert!(!board.is_set(0, 2));
    assert!(board.is_in_bounds(1, 1));
    assert!(!board.is_in_bounds(2, 1));
}

#[test]
fn first_and_last_set_columns() {
    let mut board = TetrisBoard::new(3, 5);
    assert_eq!(board.get_first_set_col(), None);
    assert_eq!(board.get_last_set_col(), None);
    load_board(&mut board, "      *      * ");
    assert_eq!(board.get_first_set_col(), Some(1));
    assert_eq!(board.get_last_set_col(), Some(3));
}

#[test]
fn cells_and_completion() {
    let mut board = TetrisBoard::new(2, 2);
    assert!(board.is_empty());
    board.set_val(0, 0, not_playable_piece_to_cell());
    assert_eq!(board.get(0, 0), TetrisCell::FilledCell(TetrisPieceType::NotPlayable));
    assert!(!board.is_complete(0));
    board.set_val(0, 1, playable_piece_to_cell(PlayableTetrisPieceType::T));
    assert!(board.is_complete(0));
    assert_eq!(board.count_complete_rows(), 1);
    board.clear(0, 0);
    assert_eq!(board.get(0, 0), TetrisCell::EmptyCell);
    assert_eq!(board.rows().len(), 2);
}
