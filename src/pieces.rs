use vstd::prelude::*;

use crate::board::{cell_filled, TetrisBoard, TetrisCell};
use crate::enums::{
    next_rotation_spec, prev_rotation_spec, PlayableTetrisPieceType, TetrisPieceRotation,
    TetrisPieceType,
};
use crate::kicks::{kick_table, Kick};

verus! {

/// Bounding box of a kind, as (rows, cols).
pub open spec fn piece_size_spec(piece: PlayableTetrisPieceType) -> (isize, isize) {
    match piece {
        PlayableTetrisPieceType::I => (4, 4),
        PlayableTetrisPieceType::O => (3, 4),
        _ => (3, 3),
    }
}

/// One byte per row of the bounding box; the leftmost column is the highest
/// of the box's `cols` low bits.
pub open spec fn rotation_masks(piece: PlayableTetrisPieceType, rotation: TetrisPieceRotation) -> Seq<u8> {
    match piece {
        PlayableTetrisPieceType::O => seq![6u8, 6, 0],
        PlayableTetrisPieceType::I => match rotation {
            TetrisPieceRotation::ZERO => seq![0u8, 15, 0, 0],
            TetrisPieceRotation::RIGHT => seq![2u8, 2, 2, 2],
            TetrisPieceRotation::TWO => seq![0u8, 0, 15, 0],
            TetrisPieceRotation::LEFT => seq![4u8, 4, 4, 4],
        },
        PlayableTetrisPieceType::Z => match rotation {
            TetrisPieceRotation::ZERO => seq![6u8, 3, 0],
            TetrisPieceRotation::RIGHT => seq![1u8, 3, 2],
            TetrisPieceRotation::TWO => seq![0u8, 6, 3],
            TetrisPieceRotation::LEFT => seq![2u8, 6, 4],
        },
        PlayableTetrisPieceType::S => match rotation {
            TetrisPieceRotation::ZERO => seq![3u8, 6, 0],
            TetrisPieceRotation::RIGHT => seq![2u8, 3, 1],
            TetrisPieceRotation::TWO => seq![0u8, 3, 6],
            TetrisPieceRotation::LEFT => seq![4u8, 6, 2],
        },
        PlayableTetrisPieceType::J => match rotation {
            TetrisPieceRotation::ZERO => seq![4u8, 7, 0],
            TetrisPieceRotation::RIGHT => seq![3u8, 2, 2],
            TetrisPieceRotation::TWO => seq![0u8, 7, 1],
            TetrisPieceRotation::LEFT => seq![2u8, 2, 6],
        },
        PlayableTetrisPieceType::L => match rotation {
            TetrisPieceRotation::ZERO => seq![1u8, 7, 0],
            TetrisPieceRotation::RIGHT => seq![2u8, 2, 3],
            TetrisPieceRotation::TWO => seq![0u8, 7, 4],
            TetrisPieceRotation::LEFT => seq![6u8, 2, 2],
        },
        PlayableTetrisPieceType::T => match rotation {
            TetrisPieceRotation::ZERO => seq![2u8, 7, 0],
            TetrisPieceRotation::RIGHT => seq![2u8, 3, 2],
            TetrisPieceRotation::TWO => seq![0u8, 7, 2],
            TetrisPieceRotation::LEFT => seq![2u8, 6, 2],
        },
    }
}

pub open spec fn mask_bit(m: u8, b: int) -> bool {
    (m >> (b as u8)) & 1u8 == 1u8
}

/// Whether cell `(i, j)` of the bounding box is occupied.
pub open spec fn shape_filled(
    piece: PlayableTetrisPieceType,
    rotation: TetrisPieceRotation,
    i: int,
    j: int,
) -> bool {
    let (h, w) = piece_size_spec(piece);
    0 <= i < h && 0 <= j < w && mask_bit(rotation_masks(piece, rotation)[i], w - 1 - j)
}

pub open spec fn shape_cell(
    piece: PlayableTetrisPieceType,
    rotation: TetrisPieceRotation,
    i: int,
    j: int,
) -> TetrisCell {
    if shape_filled(piece, rotation, i, j) {
        TetrisCell::FilledCell(TetrisPieceType::Playable(piece))
    } else {
        TetrisCell::EmptyCell
    }
}

/// Whether the piece in rotation `rot`, anchored at `(row, col)`, has an
/// occupied cell that is off the board or on a filled board cell.
pub open spec fn shape_collides(
    piece: PlayableTetrisPieceType,
    rot: TetrisPieceRotation,
    row: int,
    col: int,
    board: TetrisBoard,
) -> bool {
    exists|i: int, j: int|
        #[trigger] shape_filled(piece, rot, i, j) && (!board.in_bounds(row + i, col + j)
            || board.filled_at(row + i, col + j))
}

pub struct TetrisPiece {
    pub piece_type: PlayableTetrisPieceType,
    pub board: TetrisBoard,
    pub rotation: TetrisPieceRotation,
}

impl TetrisPiece {
    pub open spec fn occupied(&self, i: int, j: int) -> bool {
        shape_filled(self.piece_type, self.rotation, i, j)
    }

    /// The piece's matrix is the shape of its kind in its rotation state.
    pub open spec fn wf(&self) -> bool {
        &&& self.board.wf()
        &&& self.board.rows == piece_size_spec(self.piece_type).0
        &&& self.board.cols == piece_size_spec(self.piece_type).1
        &&& forall|i: int, j: int|
            self.board.in_bounds(i, j) ==> #[trigger] self.board@[i][j] == shape_cell(
                self.piece_type,
                self.rotation,
                i,
                j,
            )
    }

    /// Every occupied cell, with the anchor at `(row, col)`, lies on the board.
    pub open spec fn fits_at(&self, row: int, col: int, board: TetrisBoard) -> bool {
        forall|i: int, j: int| #[trigger] self.occupied(i, j) ==> board.in_bounds(row + i, col + j)
    }

    pub open spec fn at_left_edge(&self, col: int) -> bool {
        exists|i: int, j: int| #[trigger] self.occupied(i, j) && col + j == 0
    }

    pub open spec fn at_right_edge(&self, col: int, board: TetrisBoard) -> bool {
        exists|i: int, j: int| #[trigger] self.occupied(i, j) && col + j == board.cols - 1
    }

    /// Moving one column left would put an occupied cell on a filled cell;
    /// a piece already at the left edge reports no collision.
    pub open spec fn collides_left_spec(&self, row: int, col: int, board: TetrisBoard) -> bool {
        !self.at_left_edge(col) && exists|i: int, j: int|
            #[trigger] self.occupied(i, j) && board.filled_at(row + i, col + j - 1)
    }

    pub open spec fn collides_right_spec(&self, row: int, col: int, board: TetrisBoard) -> bool {
        !self.at_right_edge(col, board) && exists|i: int, j: int|
            #[trigger] self.occupied(i, j) && board.filled_at(row + i, col + j + 1)
    }

    /// The piece, shifted by the kick, would be off the board or on a filled cell.
    pub open spec fn collides_kick_spec(
        &self,
        row: int,
        col: int,
        board: TetrisBoard,
        kick: Kick,
    ) -> bool {
        shape_collides(self.piece_type, self.rotation, row - kick.1, col + kick.0, board)
    }

    /// Grounded: an occupied cell is on the last row or above a filled cell.
    pub open spec fn collides_on_next_spec(&self, row: int, col: int, board: TetrisBoard) -> bool {
        exists|i: int, j: int|
            #[trigger] self.occupied(i, j) && (row + i == board.rows - 1 || board.filled_at(
                row + i + 1,
                col + j,
            ))
    }

    proof fn lemma_filled_is_occupied(&self)
        requires
            self.wf(),
        ensures
            forall|i: int, j: int| #[trigger] self.board.filled_at(i, j) == self.occupied(i, j),
    {
        assert forall|i: int, j: int| #[trigger] self.board.filled_at(i, j) == self.occupied(i, j) by {
            if self.board.in_bounds(i, j) {
                assert(self.board@[i][j] == shape_cell(self.piece_type, self.rotation, i, j));
            }
        }
    }

    pub fn new(piece: PlayableTetrisPieceType) -> (p: Self)
        ensures
            p.wf(),
            p.piece_type == piece,
            p.rotation == TetrisPieceRotation::ZERO,
    {
        TetrisPiece {
            piece_type: piece,
            rotation: TetrisPieceRotation::ZERO,
            board: get_piece_matrix(piece, TetrisPieceRotation::ZERO),
        }
    }

    fn setup_board(&mut self)
        ensures
            final(self).wf(),
            final(self).piece_type == old(self).piece_type,
            final(self).rotation == old(self).rotation,
    {
        self.board = get_piece_matrix(self.piece_type, self.rotation);
    }

    pub fn rotate_piece(&mut self)
        ensures
            final(self).wf(),
            final(self).piece_type == old(self).piece_type,
            final(self).rotation == next_rotation_spec(old(self).rotation),
    {
        self.rotation = TetrisPiece::next_rotation(self.rotation);
        self.setup_board();
    }

    pub fn rotate_piece_prev(&mut self)
        ensures
            final(self).wf(),
            final(self).piece_type == old(self).piece_type,
            final(self).rotation == prev_rotation_spec(old(self).rotation),
    {
        self.rotation = TetrisPiece::prev_rotation(self.rotation);
        self.setup_board();
    }

    pub fn set_rotation(&mut self, rotation: TetrisPieceRotation)
        ensures
            final(self).wf(),
            final(self).piece_type == old(self).piece_type,
            final(self).rotation == rotation,
    {
        self.rotation = rotation;
        self.setup_board();
    }

    pub fn width(&self) -> (w: isize)
        requires
            self.wf(),
        ensures
            w == piece_size_spec(self.piece_type).1,
    {
        self.board.cols
    }

    pub fn height(&self) -> (h: isize)
        requires
            self.wf(),
        ensures
            h == piece_size_spec(self.piece_type).0,
    {
        self.board.rows
    }

    pub fn next_rotation(rotation: TetrisPieceRotation) -> (r: TetrisPieceRotation)
        ensures
            r == next_rotation_spec(rotation),
    {
        match rotation {
            TetrisPieceRotation::ZERO => TetrisPieceRotation::RIGHT,
            TetrisPieceRotation::RIGHT => TetrisPieceRotation::TWO,
            TetrisPieceRotation::TWO => TetrisPieceRotation::LEFT,
            TetrisPieceRotation::LEFT => TetrisPieceRotation::ZERO,
        }
    }

    pub fn prev_rotation(rotation: TetrisPieceRotation) -> (r: TetrisPieceRotation)
        ensures
            r == prev_rotation_spec(rotation),
    {
        match rotation {
            TetrisPieceRotation::ZERO => TetrisPieceRotation::LEFT,
            TetrisPieceRotation::LEFT => TetrisPieceRotation::TWO,
            TetrisPieceRotation::TWO => TetrisPieceRotation::RIGHT,
            TetrisPieceRotation::RIGHT => TetrisPieceRotation::ZERO,
        }
    }

    pub fn get_piece_size(piece: PlayableTetrisPieceType) -> (s: (isize, isize))
        ensures
            s == piece_size_spec(piece),
    {
        get_piece_size(piece)
    }

    /// Every cell of the bounding box, row by row.
    pub fn all_cells(&self) -> (cells: Vec<(isize, isize)>)
        requires
            self.wf(),
        ensures
            cells@.len() == self.board.rows * self.board.cols,
            forall|k: int|
                0 <= k < cells@.len() ==> #[trigger] cells@[k] == ((k / self.board.cols as int) as isize, (k
                    % self.board.cols as int) as isize),
    {
        let w = self.width();
        let h = self.height();
        let mut cells: Vec<(isize, isize)> = Vec::new();
        let mut i: isize = 0;
        while i < h
            invariant
                0 <= i <= h <= 4,
                1 <= w <= 4,
                w == self.board.cols,
                h == self.board.rows,
                cells@.len() == i * w,
                forall|k: int|
                    0 <= k < cells@.len() ==> #[trigger] cells@[k] == ((k / w as int) as isize, (k
                        % w as int) as isize),
            decreases h - i,
        {
            let mut j: isize = 0;
            while j < w
                invariant
                    0 <= i < h <= 4,
                    1 <= w <= 4,
                    0 <= j <= w,
                    cells@.len() == i * w + j,
                    forall|k: int|
                        0 <= k < cells@.len() ==> #[trigger] cells@[k] == ((k / w as int) as isize, (k
                            % w as int) as isize),
                decreases w - j,
            {
                proof {
                    let k = i * w + j;
                    assert(k / (w as int) == i as int && k % (w as int) == j as int) by (nonlinear_arith)
                        requires
                            k == i * w + j,
                            0 <= j < w,
                            0 <= i,
                    ;
                }
                cells.push((i, j));
                j += 1;
            }
            assert((i + 1) * w == i * w + w) by (nonlinear_arith);
            i += 1;
        }
        cells
    }

    /// The occupied cells, row by row.
    pub fn set_cells(&self) -> (cells: Vec<(isize, isize)>)
        requires
            self.wf(),
        ensures
            forall|k: int|
                0 <= k < cells@.len() ==> self.occupied((#[trigger] cells@[k]).0 as int, cells@[k].1 as int),
            forall|a: int, b: int|
                0 <= a < b < cells@.len() ==> ((#[trigger] cells@[a]).0 < (#[trigger] cells@[b]).0 || (
                cells@[a].0 == cells@[b].0 && cells@[a].1 < cells@[b].1)),
            forall|i: int, j: int|
                #[trigger] self.occupied(i, j) ==> exists|k: int|
                    0 <= k < cells@.len() && cells@[k] == (i as isize, j as isize),
    {
        proof {
            self.lemma_filled_is_occupied();
        }
        let w = self.width();
        let h = self.height();
        let mut cells: Vec<(isize, isize)> = Vec::new();
        let mut i: isize = 0;
        while i < h
            invariant
                self.wf(),
                0 <= i <= h,
                w == self.board.cols,
                h == self.board.rows,
                forall|i: int, j: int| #[trigger] self.board.filled_at(i, j) == self.occupied(i, j),
                forall|k: int|
                    0 <= k < cells@.len() ==> self.occupied(
                        (#[trigger] cells@[k]).0 as int,
                        cells@[k].1 as int,
                    ) && cells@[k].0 < i,
                forall|a: int, b: int|
                    0 <= a < b < cells@.len() ==> ((#[trigger] cells@[a]).0 < (#[trigger] cells@[b]).0 || (
                    cells@[a].0 == cells@[b].0 && cells@[a].1 < cells@[b].1)),
                forall|a: int, b: int|
                    #[trigger] self.occupied(a, b) && a < i ==> exists|k: int|
                        0 <= k < cells@.len() && cells@[k] == (a as isize, b as isize),
            decreases h - i,
        {
            let mut j: isize = 0;
            while j < w
                invariant
                    self.wf(),
                    0 <= i < h,
                    0 <= j <= w,
                    w == self.board.cols,
                    h == self.board.rows,
                    forall|i: int, j: int| #[trigger] self.board.filled_at(i, j) == self.occupied(i, j),
                    forall|k: int|
                        0 <= k < cells@.len() ==> self.occupied(
                            (#[trigger] cells@[k]).0 as int,
                            cells@[k].1 as int,
                        ) && (cells@[k].0 < i || (cells@[k].0 == i && cells@[k].1 < j)),
                    forall|a: int, b: int|
                        0 <= a < b < cells@.len() ==> ((#[trigger] cells@[a]).0 < (#[trigger] cells@[b]).0
                            || (cells@[a].0 == cells@[b].0 && cells@[a].1 < cells@[b].1)),
                    forall|a: int, b: int|
                        #[trigger] self.occupied(a, b) && (a < i || (a == i && b < j)) ==> exists|k: int|
                            0 <= k < cells@.len() && cells@[k] == (a as isize, b as isize),
                decreases w - j,
            {
                if self.board.is_set(i, j) {
                    let ghost old_cells = cells@;
                    cells.push((i, j));
                    proof {
                        assert(cells@[old_cells.len() as int] == (i, j));
                        assert forall|k: int| 0 <= k < old_cells.len() implies cells@[k] == old_cells[k] by {}
                        assert(self.occupied(i as int, j as int));
                        assert forall|a: int, b: int|
                            #[trigger] self.occupied(a, b) && (a < i || (a == i && b < j + 1)) implies exists|k: int|
                                0 <= k < cells@.len() && cells@[k] == (a as isize, b as isize) by {
                            if a == i && b == j {
                                assert(cells@[old_cells.len() as int] == (a as isize, b as isize));
                            } else {
                                let k = choose|k: int|
                                    0 <= k < old_cells.len() && old_cells[k] == (a as isize, b as isize);
                                assert(cells@[k] == old_cells[k]);
                            }
                        }
                    }
                } else {
                    proof {
                        assert forall|a: int, b: int|
                            #[trigger] self.occupied(a, b) && (a < i || (a == i && b < j + 1)) implies exists|k: int|
                                0 <= k < cells@.len() && cells@[k] == (a as isize, b as isize) by {
                            if a == i && b == j {
                                assert(self.board.filled_at(a, b));
                            }
                        }
                    }
                }
                j += 1;
            }
            proof {
                assert forall|a: int, b: int|
                    #[trigger] self.occupied(a, b) && a < i + 1 implies exists|k: int|
                        0 <= k < cells@.len() && cells@[k] == (a as isize, b as isize) by {
                    if a == i {
                        assert(b < w);
                    }
                }
            }
            i += 1;
        }
        proof {
            assert forall|a: int, b: int| #[trigger] self.occupied(a, b) implies exists|k: int|
                0 <= k < cells@.len() && cells@[k] == (a as isize, b as isize) by {
                assert(a < h);
            }
        }
        cells
    }

    pub fn collides_left(&self, row: isize, col: isize, matrix: &TetrisBoard) -> (r: bool)
        requires
            self.wf(),
            matrix.wf(),
        ensures
            r == self.collides_left_spec(row as int, col as int, *matrix),
    {
        if self.touches_column(col, 0) {
            return false;
        }
        self.hits_shifted(row, col, -1, matrix)
    }

    pub fn collides_right(&self, row: isize, col: isize, matrix: &TetrisBoard) -> (r: bool)
        requires
            self.wf(),
            matrix.wf(),
        ensures
            r == self.collides_right_spec(row as int, col as int, *matrix),
    {
        if self.touches_column(col, matrix.cols - 1) {
            return false;
        }
        self.hits_shifted(row, col, 1, matrix)
    }

    /// Whether an occupied cell lands on board column `edge` with the anchor at `col`.
    fn touches_column(&self, col: isize, edge: isize) -> (r: bool)
        requires
            self.wf(),
        ensures
            r == exists|i: int, j: int| #[trigger] self.occupied(i, j) && col + j == edge,
    {
        proof {
            self.lemma_filled_is_occupied();
        }
        let w = self.width();
        let h = self.height();
        let mut i: isize = 0;
        while i < h
            invariant
                self.wf(),
                0 <= i <= h,
                w == self.board.cols,
                h == self.board.rows,
                forall|i: int, j: int| #[trigger] self.board.filled_at(i, j) == self.occupied(i, j),
                forall|a: int, b: int| #[trigger] self.occupied(a, b) && a < i ==> col + b != edge,
            decreases h - i,
        {
            let mut j: isize = 0;
            while j < w
                invariant
                    self.wf(),
                    0 <= i < h,
                    0 <= j <= w,
                    w == self.board.cols,
                    h == self.board.rows,
                    forall|i: int, j: int| #[trigger] self.board.filled_at(i, j) == self.occupied(i, j),
                    forall|a: int, b: int|
                        #[trigger] self.occupied(a, b) && (a < i || (a == i && b < j)) ==> col + b != edge,
                decreases w - j,
            {
                if self.board.is_set(i, j) && col as i128 + j as i128 == edge as i128 {
                    assert(self.occupied(i as int, j as int));
                    return true;
                }
                j += 1;
            }
            i += 1;
        }
        proof {
            assert forall|a: int, b: int| #[trigger] self.occupied(a, b) implies col + b != edge by {
                assert(a < h);
            }
        }
        false
    }

    /// Whether an occupied cell, moved `dc` columns, lands on a filled board cell.
    fn hits_shifted(&self, row: isize, col: isize, dc: isize, matrix: &TetrisBoard) -> (r: bool)
        requires
            self.wf(),
            matrix.wf(),
            -1 <= dc <= 1,
        ensures
            r == exists|i: int, j: int|
                #[trigger] self.occupied(i, j) && matrix.filled_at(row + i, col + j + dc),
    {
        proof {
            self.lemma_filled_is_occupied();
        }
        let w = self.width();
        let h = self.height();
        let mut i: isize = 0;
        while i < h
            invariant
                self.wf(),
                matrix.wf(),
                0 <= i <= h,
                w == self.board.cols,
                h == self.board.rows,
                -1 <= dc <= 1,
                forall|i: int, j: int| #[trigger] self.board.filled_at(i, j) == self.occupied(i, j),
                forall|a: int, b: int|
                    #[trigger] self.occupied(a, b) && a < i ==> !matrix.filled_at(row + a, col + b + dc),
            decreases h - i,
        {
            let mut j: isize = 0;
            while j < w
                invariant
                    self.wf(),
                    matrix.wf(),
                    0 <= i < h,
                    0 <= j <= w,
                    w == self.board.cols,
                    h == self.board.rows,
                    -1 <= dc <= 1,
                    forall|i: int, j: int| #[trigger] self.board.filled_at(i, j) == self.occupied(i, j),
                    forall|a: int, b: int|
                        #[trigger] self.occupied(a, b) && (a < i || (a == i && b < j))
                            ==> !matrix.filled_at(row + a, col + b + dc),
                decreases w - j,
            {
                if self.board.is_set(i, j) && matrix.is_set_at(
                    row as i128 + i as i128,
                    col as i128 + j as i128 + dc as i128,
                ) {
                    assert(self.occupied(i as int, j as int));
                    return true;
                }
                j += 1;
            }
            i += 1;
        }
        proof {
            assert forall|a: int, b: int| #[trigger] self.occupied(a, b) implies !matrix.filled_at(
                row + a,
                col + b + dc,
            ) by {
                assert(a < h);
            }
        }
        false
    }

    pub fn collides_kick(&self, row: isize, col: isize, matrix: &TetrisBoard, kick: &Kick) -> (r: bool)
        requires
            self.wf(),
            matrix.wf(),
        ensures
            r == self.collides_kick_spec(row as int, col as int, *matrix, *kick),
    {
        proof {
            self.lemma_filled_is_occupied();
        }
        let w = self.width();
        let h = self.height();
        let mut i: isize = 0;
        while i < h
            invariant
                self.wf(),
                matrix.wf(),
                0 <= i <= h,
                w == self.board.cols,
                h == self.board.rows,
                forall|i: int, j: int| #[trigger] self.board.filled_at(i, j) == self.occupied(i, j),
                forall|a: int, b: int|
                    #[trigger] self.occupied(a, b) && a < i ==> matrix.in_bounds(
                        row - kick.1 + a,
                        col + kick.0 + b,
                    ) && !matrix.filled_at(row - kick.1 + a, col + kick.0 + b),
            decreases h - i,
        {
            let mut j: isize = 0;
            while j < w
                invariant
                    self.wf(),
                    matrix.wf(),
                    0 <= i < h,
                    0 <= j <= w,
                    w == self.board.cols,
                    h == self.board.rows,
                    forall|i: int, j: int| #[trigger] self.board.filled_at(i, j) == self.occupied(i, j),
                    forall|a: int, b: int|
                        #[trigger] self.occupied(a, b) && (a < i || (a == i && b < j))
                            ==> matrix.in_bounds(row - kick.1 + a, col + kick.0 + b) && !matrix.filled_at(
                            row - kick.1 + a,
                            col + kick.0 + b,
                        ),
                decreases w - j,
            {
                if self.board.is_set(i, j) {
                    let ei = row as i128 + i as i128 - kick.1 as i128;
                    let ej = j as i128 + col as i128 + kick.0 as i128;
                    if ei < 0 || ei >= matrix.rows as i128 || ej < 0 || ej >= matrix.cols as i128 {
                        assert(self.occupied(i as int, j as int));
                        return true;
                    }
                    if matrix.is_set_at(ei, ej) {
                        assert(self.occupied(i as int, j as int));
                        return true;
                    }
                }
                j += 1;
            }
            i += 1;
        }
        proof {
            assert forall|a: int, b: int| #[trigger]
                shape_filled(self.piece_type, self.rotation, a, b) implies !(!matrix.in_bounds(
                row - kick.1 + a,
                col + kick.0 + b,
            ) || matrix.filled_at(row - kick.1 + a, col + kick.0 + b)) by {
                assert(self.occupied(a, b));
                assert(a < h);
            }
        }
        false
    }

    pub fn collides_on_next(&self, row: isize, col: isize, matrix: &TetrisBoard) -> (r: bool)
        requires
            self.wf(),
            matrix.wf(),
        ensures
            r == self.collides_on_next_spec(row as int, col as int, *matrix),
    {
        proof {
            self.lemma_filled_is_occupied();
        }
        let w = self.width();
        let h = self.height();
        let mut i: isize = 0;
        while i < h
            invariant
                self.wf(),
                matrix.wf(),
                0 <= i <= h,
                w == self.board.cols,
                h == self.board.rows,
                forall|i: int, j: int| #[trigger] self.board.filled_at(i, j) == self.occupied(i, j),
                forall|a: int, b: int|
                    #[trigger] self.occupied(a, b) && a < i ==> !(row + a == matrix.rows - 1
                        || matrix.filled_at(row + a + 1, col + b)),
            decreases h - i,
        {
            let mut j: isize = 0;
            while j < w
                invariant
                    self.wf(),
                    matrix.wf(),
                    0 <= i < h,
                    0 <= j <= w,
                    w == self.board.cols,
                    h == self.board.rows,
                    forall|i: int, j: int| #[trigger] self.board.filled_at(i, j) == self.occupied(i, j),
                    forall|a: int, b: int|
                        #[trigger] self.occupied(a, b) && (a < i || (a == i && b < j)) ==> !(row + a
                            == matrix.rows - 1 || matrix.filled_at(row + a + 1, col + b)),
                decreases w - j,
            {
                if self.board.is_set(i, j) {
                    if row as i128 + i as i128 == matrix.rows as i128 - 1 {
                        assert(self.occupied(i as int, j as int));
                        return true;
                    }
                    if matrix.is_set_at(row as i128 + i as i128 + 1, j as i128 + col as i128) {
                        assert(self.occupied(i as int, j as int));
                        return true;
                    }
                }
                j += 1;
            }
            i += 1;
        }
        proof {
            assert forall|a: int, b: int| #[trigger] self.occupied(a, b) implies !(row + a == matrix.rows
                - 1 || matrix.filled_at(row + a + 1, col + b)) by {
                assert(a < h);
            }
        }
        false
    }

    /// The kick candidates for the transition from `from_rot` to the current
    /// rotation state.
    pub fn get_kicks(&self, from_rot: TetrisPieceRotation) -> (k: Vec<Kick>)
        requires
            self.rotation == next_rotation_spec(from_rot) || self.rotation == prev_rotation_spec(
                from_rot,
            ),
        ensures
            k@ == kick_table(self.piece_type, from_rot, self.rotation),
    {
        crate::kicks::get_kicks(self.piece_type, from_rot, self.rotation)
    }
}

pub fn get_piece_size(piece: PlayableTetrisPieceType) -> (s: (isize, isize))
    ensures
        s == piece_size_spec(piece),
{
    match piece {
        PlayableTetrisPieceType::I => (4, 4),
        PlayableTetrisPieceType::O => (3, 4),
        _ => (3, 3),
    }
}

fn get_piece_matrix(piece: PlayableTetrisPieceType, rotation: TetrisPieceRotation) -> (m: TetrisBoard)
    ensures
        (TetrisPiece { piece_type: piece, board: m, rotation }).wf(),
{
    let (r, c) = get_piece_size(piece);
    let mut matrix = TetrisBoard::new(r, c);
    fill_piece_matrix(piece, &mut matrix, rotation);
    matrix
}

/// Writes the shape of `piece` in `rotation` into a matrix of its size.
pub fn fill_piece_matrix(
    piece: PlayableTetrisPieceType,
    matrix: &mut TetrisBoard,
    rotation: TetrisPieceRotation,
)
    requires
        old(matrix).wf(),
        old(matrix).rows == piece_size_spec(piece).0,
        old(matrix).cols == piece_size_spec(piece).1,
    ensures
        (TetrisPiece { piece_type: piece, board: *final(matrix), rotation }).wf(),
{
    let masks = get_rotations(piece, rotation);
    let rows = matrix.rows;
    let cols = matrix.cols;
    let mut i: isize = 0;
    while i < rows
        invariant
            matrix.wf(),
            matrix.rows == rows,
            matrix.cols == cols,
            rows == piece_size_spec(piece).0,
            cols == piece_size_spec(piece).1,
            masks@ == rotation_masks(piece, rotation),
            0 <= i <= rows,
            forall|a: int, b: int|
                0 <= a < i && 0 <= b < cols ==> #[trigger] matrix@[a][b] == shape_cell(
                    piece,
                    rotation,
                    a,
                    b,
                ),
        decreases rows - i,
    {
        let m = masks[i as usize];
        let mut j: isize = 0;
        while j < cols
            invariant
                matrix.wf(),
                matrix.rows == rows,
                matrix.cols == cols,
                rows == piece_size_spec(piece).0,
                cols == piece_size_spec(piece).1,
                masks@ == rotation_masks(piece, rotation),
                0 <= i < rows,
                0 <= j <= cols,
                m == masks@[i as int],
                forall|a: int, b: int|
                    0 <= a < i && 0 <= b < cols ==> #[trigger] matrix@[a][b] == shape_cell(
                        piece,
                        rotation,
                        a,
                        b,
                    ),
                forall|b: int|
                    0 <= b < j ==> #[trigger] matrix@[i as int][b] == shape_cell(
                        piece,
                        rotation,
                        i as int,
                        b,
                    ),
            decreases cols - j,
        {
            let shift = (cols - 1 - j) as u8;
            let cell = if (m >> shift) & 1u8 == 1u8 {
                TetrisCell::FilledCell(TetrisPieceType::Playable(piece))
            } else {
                TetrisCell::EmptyCell
            };
            assert(cell == shape_cell(piece, rotation, i as int, j as int));
            matrix.set_val(i, j, cell);
            j += 1;
        }
        i += 1;
    }
}

fn get_rotations(piece: PlayableTetrisPieceType, rotation: TetrisPieceRotation) -> (m: Vec<u8>)
    ensures
        m@ == rotation_masks(piece, rotation),
{
    match piece {
        PlayableTetrisPieceType::O => get_rotations_o(rotation),
        PlayableTetrisPieceType::I => get_rotations_i(rotation),
        PlayableTetrisPieceType::Z => get_rotations_z(rotation),
        PlayableTetrisPieceType::S => get_rotations_s(rotation),
        PlayableTetrisPieceType::J => get_rotations_j(rotation),
        PlayableTetrisPieceType::L => get_rotations_l(rotation),
        PlayableTetrisPieceType::T => get_rotations_t(rotation),
    }
}

fn get_rotations_o(rotation: TetrisPieceRotation) -> (m: Vec<u8>)
    ensures
        m@ == rotation_masks(PlayableTetrisPieceType::O, rotation),
{
    let m = vec![6u8, 6, 0];
    assert(m@ =~= rotation_masks(PlayableTetrisPieceType::O, rotation));
    m
}

fn get_rotations_i(rotation: TetrisPieceRotation) -> (m: Vec<u8>)
    ensures
        m@ == rotation_masks(PlayableTetrisPieceType::I, rotation),
{
    let m = match rotation {
        TetrisPieceRotation::ZERO => vec![0u8, 15, 0, 0],
        TetrisPieceRotation::RIGHT => vec![2u8, 2, 2, 2],
        TetrisPieceRotation::TWO => vec![0u8, 0, 15, 0],
        TetrisPieceRotation::LEFT => vec![4u8, 4, 4, 4],
    };
    assert(m@ =~= rotation_masks(PlayableTetrisPieceType::I, rotation));
    m
}

fn get_rotations_z(rotation: TetrisPieceRotation) -> (m: Vec<u8>)
    ensures
        m@ == rotation_masks(PlayableTetrisPieceType::Z, rotation),
{
    let m = match rotation {
        TetrisPieceRotation::ZERO => vec![6u8, 3, 0],
        TetrisPieceRotation::RIGHT => vec![1u8, 3, 2],
        TetrisPieceRotation::TWO => vec![0u8, 6, 3],
        TetrisPieceRotation::LEFT => vec![2u8, 6, 4],
    };
    assert(m@ =~= rotation_masks(PlayableTetrisPieceType::Z, rotation));
    m
}

fn get_rotations_s(rotation: TetrisPieceRotation) -> (m: Vec<u8>)
    ensures
        m@ == rotation_masks(PlayableTetrisPieceType::S, rotation),
{
    let m = match rotation {
        TetrisPieceRotation::ZERO => vec![3u8, 6, 0],
        TetrisPieceRotation::RIGHT => vec![2u8, 3, 1],
        TetrisPieceRotation::TWO => vec![0u8, 3, 6],
        TetrisPieceRotation::LEFT => vec![4u8, 6, 2],
    };
    assert(m@ =~= rotation_masks(PlayableTetrisPieceType::S, rotation));
    m
}

fn get_rotations_j(rotation: TetrisPieceRotation) -> (m: Vec<u8>)
    ensures
        m@ == rotation_masks(PlayableTetrisPieceType::J, rotation),
{
    let m = match rotation {
        TetrisPieceRotation::ZERO => vec![4u8, 7, 0],
        TetrisPieceRotation::RIGHT => vec![3u8, 2, 2],
        TetrisPieceRotation::TWO => vec![0u8, 7, 1],
        TetrisPieceRotation::LEFT => vec![2u8, 2, 6],
    };
    assert(m@ =~= rotation_masks(PlayableTetrisPieceType::J, rotation));
    m
}

fn get_rotations_l(rotation: TetrisPieceRotation) -> (m: Vec<u8>)
    ensures
        m@ == rotation_masks(PlayableTetrisPieceType::L, rotation),
{
    let m = match rotation {
        TetrisPieceRotation::ZERO => vec![1u8, 7, 0],
        TetrisPieceRotation::RIGHT => vec![2u8, 2, 3],
        TetrisPieceRotation::TWO => vec![0u8, 7, 4],
        TetrisPieceRotation::LEFT => vec![6u8, 2, 2],
    };
    assert(m@ =~= rotation_masks(PlayableTetrisPieceType::L, rotation));
    m
}

fn get_rotations_t(rotation: TetrisPieceRotation) -> (m: Vec<u8>)
    ensures
        m@ == rotation_masks(PlayableTetrisPieceType::T, rotation),
{
    let m = match rotation {
        TetrisPieceRotation::ZERO => vec![2u8, 7, 0],
        TetrisPieceRotation::RIGHT => vec![2u8, 3, 2],
        TetrisPieceRotation::TWO => vec![0u8, 7, 2],
        TetrisPieceRotation::LEFT => vec![2u8, 6, 2],
    };
    assert(m@ =~= rotation_masks(PlayableTetrisPieceType::T, rotation));
    m
}

proof fn lemma_low_bits(m: u8)
    requires
        0 < m < 16,
    ensures
        (m >> 0u8) & 1u8 == 1u8 || (m >> 1u8) & 1u8 == 1u8 || (m >> 2u8) & 1u8 == 1u8 || (m >> 3u8)
            & 1u8 == 1u8,
        m < 8 ==> (m >> 0u8) & 1u8 == 1u8 || (m >> 1u8) & 1u8 == 1u8 || (m >> 2u8) & 1u8 == 1u8,
{
    assert(0 < m < 16 ==> (m >> 0u8) & 1u8 == 1u8 || (m >> 1u8) & 1u8 == 1u8 || (m >> 2u8) & 1u8
        == 1u8 || (m >> 3u8) & 1u8 == 1u8) by (bit_vector);
    assert(0 < m < 8 ==> (m >> 0u8) & 1u8 == 1u8 || (m >> 1u8) & 1u8 == 1u8 || (m >> 2u8) & 1u8
        == 1u8) by (bit_vector);
}

/// Every shape occupies at least one cell.
pub proof fn lemma_shape_nonempty(piece: PlayableTetrisPieceType, rotation: TetrisPieceRotation)
    ensures
        exists|i: int, j: int| #[trigger] shape_filled(piece, rotation, i, j),
{
    let masks = rotation_masks(piece, rotation);
    let w = piece_size_spec(piece).1 as int;
    let i: int = if piece == PlayableTetrisPieceType::I && rotation == TetrisPieceRotation::TWO {
        2
    } else {
        1
    };
    let m = masks[i];
    assert(0 < m < 16);
    assert(w == 4 || m < 8);
    lemma_low_bits(m);
    if (m >> 0u8) & 1u8 == 1u8 {
        assert(shape_filled(piece, rotation, i, w - 1));
    } else if (m >> 1u8) & 1u8 == 1u8 {
        assert(shape_filled(piece, rotation, i, w - 2));
    } else if (m >> 2u8) & 1u8 == 1u8 {
        assert(shape_filled(piece, rotation, i, w - 3));
    } else {
        assert(shape_filled(piece, rotation, i, w - 4));
    }
}

} // verus!
