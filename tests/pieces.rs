use rust_tetris::app_structs::{HoldTetrisPiece, TetrisPieceWithPosition};
use rust_tetris::board::{TetrisBoard, TetrisCell};
use rust_tetris::enums::{PlayableTetrisPieceType, TetrisPieceRotation, TetrisPieceType};
use rust_tetris::kicks::{get_kicks, is_not_empty};
use rust_tetris::pieces::{fill_piece_matrix, get_piece_size, TetrisPiece};

#[test]
fn pieces_test_get_piece_size() {
    let (w, h) = get_piece_size(PlayableTetrisPieceType::T);
    assert!(w == 3 && h == 3);

    let (w, h) = get_piece_size(PlayableTetrisPieceType::I);
    assert!(w == 4 && h == 4);

    let (w, h) = get_piece_size(PlayableTetrisPieceType::S);
    assert!(w == 3 && h == 3);

    let (w, h) = get_piece_size(PlayableTetrisPieceType::Z);
    assert!(w == 3 && h == 3);

    let (w, h) = get_piece_size(PlayableTetrisPieceType::J);
    assert!(w == 3 && h == 3);

    let (w, h) = get_piece_size(PlayableTetrisPieceType::L);
    assert!(w == 3 && h == 3);

    let (w, h) = get_piece_size(PlayableTetrisPieceType::O);
    assert!(w == 3 && h == 4);
}

#[test]
fn pieces_test_next_rotation() {
    let mut rotation = TetrisPieceRotation::ZERO;

    assert_eq!(rotation, TetrisPieceRotation::ZERO);
    rotation = TetrisPiece::next_rotation(rotation);

    assert_eq!(rotation, TetrisPieceRotation::RIGHT);
    rotation = TetrisPiece::next_rotation(rotation);

    assert_eq!(rotation, TetrisPieceRotation::TWO);
    rotation = TetrisPiece::next_rotation(rotation);

    assert_eq!(rotation, TetrisPieceRotation::LEFT);
    rotation = TetrisPiece::next_rotation(rotation);

    assert_eq!(rotation, TetrisPieceRotation::ZERO);
}

#[test]
fn pieces_test_prev_rotation() {
    let mut rotation = TetrisPieceRotation::ZERO;

    assert_eq!(rotation, TetrisPieceRotation::ZERO);
    rotation = TetrisPiece::prev_rotation(rotation);

    assert_eq!(rotation, TetrisPieceRotation::LEFT);
    rotation = TetrisPiece::prev_rotation(rotation);

    assert_eq!(rotation, TetrisPieceRotation::TWO);
    rotation = TetrisPiece::prev_rotation(rotation);

    assert_eq!(rotation, TetrisPieceRotation::RIGHT);
    rotation = TetrisPiece::prev_rotation(rotation);

    assert_eq!(rotation, TetrisPieceRotation::ZERO);
}

#[test]
#[allow(non_snake_case)]
fn test_set_cells_T() {
    let t = TetrisPiece::new(PlayableTetrisPieceType::T);
    let cells: Vec<_> = t.set_cells();

    assert_eq!(cells, vec![(0, 1), (1, 0), (1, 1), (1, 2)]);
}

#[test]
#[allow(non_snake_case)]
fn test_set_cells_I() {
    let t = TetrisPiece::new(PlayableTetrisPieceType::I);
    let cells: Vec<_> = t.set_cells();

    assert_eq!(cells, vec![(1, 0), (1, 1), (1, 2), (1, 3)]);
}

#[test]
fn test_is_not_empty() {
    let mut kick = (1, 0);
    assert_eq!(is_not_empty(kick), true);

    kick = (0, 1);
    assert_eq!(is_not_empty(kick), true);

    kick = (1, 1);
    assert_eq!(is_not_empty(kick), true);

    kick = (0, 0);
    assert_eq!(is_not_empty(kick), false);
}

#[test]
fn rotated_shapes() {
    let mut t = TetrisPiece::new(PlayableTetrisPieceType::T);
    t.rotate_piece();
    assert_eq!(t.rotation, TetrisPieceRotation::RIGHT);
    assert_eq!(t.set_cells(), vec![(0, 1), (1, 1), (1, 2), (2, 1)]);
    t.rotate_piece_prev();
    t.rotate_piece_prev();
    assert_eq!(t.rotation, TetrisPieceRotation::LEFT);
    assert_eq!(t.set_cells(), vec![(0, 1), (1, 0), (1, 1), (2, 1)]);
    let mut o = TetrisPiece::new(PlayableTetrisPieceType::O);
    o.set_rotation(TetrisPieceRotation::TWO);
    assert_eq!(o.set_cells(), vec![(0, 1), (0, 2), (1, 1), (1, 2)]);
    assert_eq!(o.width(), 4);
    assert_eq!(o.height(), 3);
    let mut i = TetrisPiece::new(PlayableTetrisPieceType::I);
    i.set_rotation(TetrisPieceRotation::LEFT);
    assert_eq!(i.set_cells(), vec![(0, 1), (1, 1), (2, 1), (3, 1)]);
    assert_eq!(i.all_cells().len(), 16);
    assert_eq!(i.all_cells()[5], (1, 1));
}

#[test]
fn fill_matrix_tags_cells_with_kind() {
    let mut m = TetrisBoard::new(3, 3);
    fill_piece_matrix(PlayableTetrisPieceType::S, &mut m, TetrisPieceRotation::ZERO);
    assert_eq!(m.get(0, 0), TetrisCell::EmptyCell);
    assert_eq!(
        m.get(0, 1),
        TetrisCell::FilledCell(TetrisPieceType::Playable(PlayableTetrisPieceType::S))
    );
    assert!(m.is_set(0, 2) && m.is_set(1, 0) && m.is_set(1, 1) && !m.is_set(1, 2));
}

#[test]
fn kick_tables() {
    assert_eq!(
        get_kicks(PlayableTetrisPieceType::I, TetrisPieceRotation::ZERO, TetrisPieceRotation::RIGHT),
        vec![(0, 0), (-2, 0), (1, 0), (-2, -1), (1, 2)]
    );
    assert_eq!(
        get_kicks(PlayableTetrisPieceType::T, TetrisPieceRotation::LEFT, TetrisPieceRotation::ZERO),
        vec![(0, 0), (-1, 0), (-1, -1), (0, 2), (-1, 2)]
    );
    assert_eq!(
        get_kicks(PlayableTetrisPieceType::O, TetrisPieceRotation::TWO, TetrisPieceRotation::LEFT),
        vec![(0, 0)]
    );
    let mut t = TetrisPiece::new(PlayableTetrisPieceType::Z);
    t.rotate_piece();
    assert_eq!(t.get_kicks(TetrisPieceRotation::ZERO), vec![(0, 0), (-1, 0), (-1, 1), (0, -2), (-1, -2)]);
}

#[test]
fn collisions_against_board() {
    let mut board = TetrisBoard::new(6, 6);
    let t = TetrisPiece::new(PlayableTetrisPieceType::T);
    // T at anchor (0, 0): cells (0,1), (1,0), (1,1), (1,2)
    assert!(!t.collides_left(0, 1, &board));
    assert!(!t.collides_on_next(0, 0, &board));
    assert!(t.collides_on_next(4, 0, &board));
    board.set(2, 1, TetrisPieceType::NotPlayable);
    assert!(t.collides_on_next(0, 0, &board));
    board.set(1, 0, TetrisPieceType::NotPlayable);
    assert!(t.collides_left(0, 1, &board));
    // at the left edge no collision is reported
    assert!(!t.collides_left(0, 0, &board));
    board.set(1, 5, TetrisPieceType::NotPlayable);
    assert!(t.collides_right(0, 2, &board));
    assert!(!t.collides_right(0, 3, &board));
    // a kick that leaves the board is refused
    assert!(t.collides_kick(0, 0, &board, &(-1, 0)));
    assert!(!t.collides_kick(3, 3, &board, &(0, 0)));
    assert!(t.collides_kick(3, 3, &board, &(0, -2)));
}

#[test]
fn positioned_piece_moves_and_stamps() {
    let mut board = TetrisBoard::new(6, 6);
    let mut p = TetrisPieceWithPosition::new(0, 0, TetrisPiece::new(PlayableTetrisPieceType::T));
    assert!(!p.try_move_left(&board));
    assert_eq!(p.col(), 0);
    assert!(p.try_move_right(&board));
    assert_eq!(p.col(), 1);
    p.move_down();
    assert_eq!(p.row(), 1);
    board.set(2, 3, TetrisPieceType::NotPlayable);
    assert!(!p.try_move_right(&board));
    p.kick_by((1, 1));
    assert_eq!((p.row(), p.col()), (0, 2));
    p.finalize_on(&mut board);
    assert_eq!(
        board.get(0, 3),
        TetrisCell::FilledCell(TetrisPieceType::Playable(PlayableTetrisPieceType::T))
    );
    assert!(board.is_set(1, 2) && board.is_set(1, 3) && board.is_set(1, 4));
    assert!(!board.is_set(0, 2));
    assert_eq!(p.tetris_piece_ref().piece_type, PlayableTetrisPieceType::T);
}

#[test]
fn can_rotate_picks_first_fitting_kick() {
    let board = TetrisBoard::new(6, 6);
    let mut p = TetrisPieceWithPosition::new(0, 0, TetrisPiece::new(PlayableTetrisPieceType::T));
    p.tetris_piece_mut().rotate_piece();
    assert_eq!(p.can_rotate(TetrisPieceRotation::ZERO, &board), Some((0, 0)));
    let mut q = TetrisPieceWithPosition::new(0, -1, TetrisPiece::new(PlayableTetrisPieceType::T));
    q.tetris_piece_mut().set_rotation(TetrisPieceRotation::RIGHT);
    q.tetris_piece_mut().rotate_piece();
    // TWO from RIGHT at column -1 leaves the board unkicked; the second candidate (1, 0) fits
    assert_eq!(q.can_rotate(TetrisPieceRotation::RIGHT, &board), Some((1, 0)));
}

#[test]
fn hold_slot_resets_rotation() {
    let mut piece = TetrisPiece::new(PlayableTetrisPieceType::L);
    piece.rotate_piece();
    let mut h = HoldTetrisPiece::new(piece);
    assert_eq!(h.piece.rotation, TetrisPieceRotation::ZERO);
    assert!(HoldTetrisPiece::can_swap(&None));
    let slot = Some(h);
    assert!(HoldTetrisPiece::can_swap(&slot));
    h = slot.unwrap();
    h.set_hold();
    let slot = Some(h);
    assert!(!HoldTetrisPiece::can_swap(&slot));
    let mut h = slot.unwrap();
    h.reset_hold();
    assert!(!h.already_hold);
}
