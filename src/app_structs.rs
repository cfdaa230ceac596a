use vstd::prelude::*;

use crate::board::{TetrisBoard, TetrisCell};
use crate::enums::{
    next_rotation_spec, prev_rotation_spec, PlayableTetrisPieceType, TetrisPieceRotation,
    TetrisPieceType,
};
use crate::kicks::{kick_table, lemma_kick_table_shape, Kick};
use crate::pieces::{lemma_shape_nonempty, shape_collides, shape_filled, TetrisPiece};

verus! {

/// Kind, rotation state and anchor (row, column) of a placed piece.
pub type PieceState = (PlayableTetrisPieceType, TetrisPieceRotation, int, int);

/// The first kick candidate for which the piece in `rot` at `(row, col)`,
/// shifted by the candidate, stays on the board and off filled cells.
pub open spec fn first_fit(
    piece: PlayableTetrisPieceType,
    rot: TetrisPieceRotation,
    row: int,
    col: int,
    board: TetrisBoard,
    kicks: Seq<Kick>,
) -> Option<Kick>
    decreases kicks.len(),
{
    if kicks.len() == 0 {
        None
    } else if !shape_collides(piece, rot, row - kicks[0].1, col + kicks[0].0, board) {
        Some(kicks[0])
    } else {
        first_fit(piece, rot, row, col, board, kicks.drop_first())
    }
}

/// Rotation with kicks: the rotation state advances (clockwise when `next`),
/// and the anchor moves by the first kick that fits; when none fits, the
/// piece is left as it was.
pub open spec fn rotation_step(s: PieceState, board: TetrisBoard, next: bool) -> PieceState {
    let to = if next {
        next_rotation_spec(s.1)
    } else {
        prev_rotation_spec(s.1)
    };
    match first_fit(s.0, to, s.2, s.3, board, kick_table(s.0, s.1, to)) {
        Some(k) => (s.0, to, s.2 - k.1, s.3 + k.0),
        None => s,
    }
}

/// The board after stamping the cells of a shape, anchored at `(row, col)`,
/// with the piece's kind.
pub open spec fn stamped(
    cells: Seq<Seq<TetrisCell>>,
    piece: PlayableTetrisPieceType,
    rot: TetrisPieceRotation,
    row: int,
    col: int,
) -> Seq<Seq<TetrisCell>> {
    Seq::new(
        cells.len(),
        |i: int|
            Seq::new(
                cells[i].len(),
                |j: int|
                    if shape_filled(piece, rot, i - row, j - col) {
                        TetrisCell::FilledCell(TetrisPieceType::Playable(piece))
                    } else {
                        cells[i][j]
                    },
            ),
    )
}

/// Rotating clockwise four times, where every rotation state fits in place,
/// returns the piece to its rotation state and anchor.
pub proof fn lemma_rotation_round_trip(s: PieceState, board: TetrisBoard)
    requires
        forall|rot: TetrisPieceRotation| !#[trigger] shape_collides(s.0, rot, s.2, s.3, board),
    ensures
        rotation_step(
            rotation_step(rotation_step(rotation_step(s, board, true), board, true), board, true),
            board,
            true,
        ) == s,
{
    lemma_unkicked_rotation(s, board);
    let s1 = rotation_step(s, board, true);
    lemma_unkicked_rotation(s1, board);
    let s2 = rotation_step(s1, board, true);
    lemma_unkicked_rotation(s2, board);
    let s3 = rotation_step(s2, board, true);
    lemma_unkicked_rotation(s3, board);
}

/// Where the rotated shape fits in place, the zero kick is taken.
proof fn lemma_unkicked_rotation(s: PieceState, board: TetrisBoard)
    requires
        !shape_collides(s.0, next_rotation_spec(s.1), s.2, s.3, board),
    ensures
        rotation_step(s, board, true) == (s.0, next_rotation_spec(s.1), s.2, s.3),
{
    lemma_kick_table_shape(s.0, s.1, next_rotation_spec(s.1));
}

impl TetrisBoard {
    /// Stamps every occupied cell of the piece, anchored at `(r, c)`, onto
    /// the board, tagged with the piece's kind.
    pub fn finalize(&mut self, piece: &TetrisPiece, r: isize, c: isize)
        requires
            piece.wf(),
            old(self).wf(),
            piece.fits_at(r as int, c as int, *old(self)),
        ensures
            final(self).wf(),
            final(self).rows == old(self).rows,
            final(self).cols == old(self).cols,
            final(self)@ == stamped(old(self)@, piece.piece_type, piece.rotation, r as int, c as int),
    {
        let cells = piece.set_cells();
        let kind = piece.piece_type;
        let rot = piece.rotation;
        let ghost start = self@;
        let ghost gr = r as int;
        let ghost gc = c as int;
        let mut k: usize = 0;
        while k < cells.len()
            invariant
                piece.wf(),
                self.wf(),
                self.rows == old(self).rows,
                self.cols == old(self).cols,
                piece.fits_at(r as int, c as int, *old(self)),
                kind == piece.piece_type,
                rot == piece.rotation,
                start == old(self)@,
                gr == r,
                gc == c,
                0 <= k <= cells@.len(),
                forall|m: int|
                    0 <= m < cells@.len() ==> piece.occupied(
                        (#[trigger] cells@[m]).0 as int,
                        cells@[m].1 as int,
                    ),
                forall|m1: int, m2: int|
                    0 <= m1 < m2 < cells@.len() ==> ((#[trigger] cells@[m1]).0 < (
                    #[trigger] cells@[m2]).0 || (cells@[m1].0 == cells@[m2].0 && cells@[m1].1
                        < cells@[m2].1)),
                forall|i: int, j: int|
                    #[trigger] piece.occupied(i, j) ==> exists|m: int|
                        0 <= m < cells@.len() && cells@[m] == (i as isize, j as isize),
                forall|i: int, j: int|
                    0 <= i < self.rows && 0 <= j < self.cols ==> #[trigger] self@[i][j] == if (
                    exists|m: int|
                        0 <= m < k && cells@[m].0 as int == i - gr && cells@[m].1 as int == j - gc) {
                        TetrisCell::FilledCell(TetrisPieceType::Playable(kind))
                    } else {
                        start[i][j]
                    },
            decreases cells@.len() - k,
        {
            let (ci, cj) = cells[k];
            assert(piece.occupied(ci as int, cj as int));
            self.set(r + ci, c + cj, TetrisPieceType::Playable(kind));
            proof {
                assert forall|i: int, j: int|
                    0 <= i < self.rows && 0 <= j < self.cols implies #[trigger] self@[i][j]
                    == if (exists|m: int|
                        0 <= m < k + 1 && cells@[m].0 as int == i - gr && cells@[m].1 as int == j - gc) {
                        TetrisCell::FilledCell(TetrisPieceType::Playable(kind))
                    } else {
                        start[i][j]
                    } by {
                    if i == gr + ci && j == gc + cj {
                        assert(cells@[k as int].0 as int == i - gr && cells@[k as int].1 as int == j - gc);
                    } else {
                        if exists|m: int|
                            0 <= m < k + 1 && cells@[m].0 as int == i - gr && cells@[m].1 as int == j - gc {
                            let m = choose|m: int|
                                0 <= m < k + 1 && cells@[m].0 as int == i - gr && cells@[m].1 as int == j - gc;
                            assert(m != k);
                        }
                    }
                }
            }
            k += 1;
        }
        proof {
            let target = stamped(start, kind, rot, gr, gc);
            assert forall|i: int| 0 <= i < self.rows implies #[trigger] self@[i] =~= target[i] by {
                assert forall|j: int| 0 <= j < self.cols implies #[trigger] self@[i][j]
                    == target[i][j] by {
                    if shape_filled(kind, rot, i - gr, j - gc) {
                        assert(piece.occupied(i - r, j - c));
                        let m = choose|m: int|
                            0 <= m < cells@.len() && cells@[m].0 as int == i - gr && cells@[m].1 as int == j - gc;
                        assert(cells@[m].0 as int == i - gr && cells@[m].1 as int == j - gc);
                    } else {
                        if exists|m: int|
                            0 <= m < cells@.len() && cells@[m].0 as int == i - gr && cells@[m].1 as int == j - gc {
                            let m = choose|m: int|
                                0 <= m < cells@.len() && cells@[m].0 as int == i - gr && cells@[m].1 as int == j - gc;
                            assert(piece.occupied(cells@[m].0 as int, cells@[m].1 as int));
                        }
                    }
                }
            }
            assert(self@ =~= target);
        }
    }

}

pub struct TetrisPieceWithPosition {
    pub r: isize,
    pub c: isize,
    pub piece: TetrisPiece,
}

impl TetrisPieceWithPosition {
    pub open spec fn wf(&self) -> bool {
        self.piece.wf()
    }

    pub open spec fn state(&self) -> PieceState {
        (self.piece.piece_type, self.piece.rotation, self.r as int, self.c as int)
    }

    /// Every occupied cell lies on the board.
    pub open spec fn inside(&self, board: TetrisBoard) -> bool {
        forall|i: int, j: int|
            #[trigger] self.piece.occupied(i, j) ==> board.in_bounds(self.r + i, self.c + j)
    }

    pub open spec fn can_move_left(&self, board: TetrisBoard) -> bool {
        &&& forall|i: int, j: int| #[trigger] self.piece.occupied(i, j) ==> self.c + j > 0
        &&& !exists|i: int, j: int|
            #[trigger] self.piece.occupied(i, j) && board.filled_at(self.r + i, self.c + j - 1)
    }

    pub open spec fn can_move_right(&self, board: TetrisBoard) -> bool {
        &&& forall|i: int, j: int|
            #[trigger] self.piece.occupied(i, j) ==> self.c + j < board.cols - 1
        &&& !exists|i: int, j: int|
            #[trigger] self.piece.occupied(i, j) && board.filled_at(self.r + i, self.c + j + 1)
    }

    pub open spec fn grounded(&self, board: TetrisBoard) -> bool {
        self.piece.collides_on_next_spec(self.r as int, self.c as int, board)
    }

    pub fn new(r: isize, c: isize, piece: TetrisPiece) -> (p: Self)
        ensures
            p.r == r,
            p.c == c,
            p.piece == piece,
    {
        TetrisPieceWithPosition { r, c, piece }
    }

    pub fn row(&self) -> (r: isize)
        ensures
            r == self.r,
    {
        self.r
    }

    pub fn col(&self) -> (c: isize)
        ensures
            c == self.c,
    {
        self.c
    }

    pub fn tetris_piece(self) -> (p: TetrisPiece)
        ensures
            p == self.piece,
    {
        self.piece
    }

    pub fn tetris_piece_ref(&self) -> (p: &TetrisPiece)
        ensures
            *p == self.piece,
    {
        &self.piece
    }

    pub fn tetris_piece_mut(&mut self) -> (p: &mut TetrisPiece)
        ensures
            *p == old(self).piece,
            final(self).r == old(self).r,
            final(self).c == old(self).c,
            final(self).piece == *final(p),
    {
        &mut self.piece
    }

    /// Stamps every occupied cell onto the board, tagged with the piece's kind.
    pub fn finalize_on(&self, board: &mut TetrisBoard)
        requires
            self.wf(),
            old(board).wf(),
            self.inside(*old(board)),
        ensures
            final(board).wf(),
            final(board).rows == old(board).rows,
            final(board).cols == old(board).cols,
            final(board)@ == stamped(
                old(board)@,
                self.piece.piece_type,
                self.piece.rotation,
                self.r as int,
                self.c as int,
            ),
    {
        board.finalize(&self.piece, self.r, self.c);
    }

    pub fn collides_on_next(&self, matrix: &TetrisBoard) -> (r: bool)
        requires
            self.wf(),
            matrix.wf(),
        ensures
            r == self.grounded(*matrix),
    {
        self.piece.collides_on_next(self.r, self.c, matrix)
    }

    pub fn collides_on_next_with_row(&self, r: isize, matrix: &TetrisBoard) -> (res: bool)
        requires
            self.wf(),
            matrix.wf(),
        ensures
            res == self.piece.collides_on_next_spec(r as int, self.c as int, *matrix),
    {
        self.piece.collides_on_next(r, self.c, matrix)
    }

    pub fn try_move_left(&mut self, matrix: &TetrisBoard) -> (moved: bool)
        requires
            old(self).wf(),
            matrix.wf(),
        ensures
            final(self).wf(),
            moved == old(self).can_move_left(*matrix),
            final(self).piece == old(self).piece,
            final(self).r == old(self).r,
            final(self).c == if moved {
                old(self).c - 1
            } else {
                old(self).c as int
            },
    {
        let ok = self.can_move_left_exec(matrix);
        proof {
            lemma_shape_nonempty(self.piece.piece_type, self.piece.rotation);
            self.lemma_columns();
            let (i, j) = choose|i: int, j: int| #[trigger]
                shape_filled(self.piece.piece_type, self.piece.rotation, i, j);
            assert(self.piece.occupied(i, j));
        }
        if ok {
            self.move_left();
        }
        ok
    }

    fn can_move_left_exec(&self, matrix: &TetrisBoard) -> (ok: bool)
        requires
            self.wf(),
            matrix.wf(),
        ensures
            ok == self.can_move_left(*matrix),
    {
        proof {
            lemma_shape_nonempty(self.piece.piece_type, self.piece.rotation);
            self.lemma_columns();
        }
        let edge = self.piece.board.get_first_set_col();
        if edge.is_none() {
            proof {
                let (i, j) = choose|i: int, j: int| #[trigger]
                    shape_filled(self.piece.piece_type, self.piece.rotation, i, j);
                assert(self.piece.board.filled_at(i, j));
                assert(self.piece.board.col_has_filled(j));
            }
            return false;
        }
        let edge_col = edge.unwrap();
        if !(self.c as i128 + edge_col as i128 > 0) {
            proof {
                let i = choose|i: int| #[trigger] self.piece.board.filled_at(i, edge_col as int);
                assert(self.piece.occupied(i, edge_col as int));
            }
            return false;
        }
        proof {
            assert forall|i: int, j: int| #[trigger] self.piece.occupied(i, j) implies self.c + j > 0 by {
                assert(self.piece.board.filled_at(i, j));
                assert(self.piece.board.col_has_filled(j));
            }
        }
        !self.piece.collides_left(self.r, self.c, matrix)
    }

    pub fn try_move_right(&mut self, matrix: &TetrisBoard) -> (moved: bool)
        requires
            old(self).wf(),
            matrix.wf(),
        ensures
            final(self).wf(),
            moved == old(self).can_move_right(*matrix),
            final(self).piece == old(self).piece,
            final(self).r == old(self).r,
            final(self).c == if moved {
                old(self).c + 1
            } else {
                old(self).c as int
            },
    {
        let ok = self.can_move_right_exec(matrix);
        proof {
            lemma_shape_nonempty(self.piece.piece_type, self.piece.rotation);
            self.lemma_columns();
            let (i, j) = choose|i: int, j: int| #[trigger]
                shape_filled(self.piece.piece_type, self.piece.rotation, i, j);
            assert(self.piece.occupied(i, j));
        }
        if ok {
            self.move_right();
        }
        ok
    }

    fn can_move_right_exec(&self, matrix: &TetrisBoard) -> (ok: bool)
        requires
            self.wf(),
            matrix.wf(),
        ensures
            ok == self.can_move_right(*matrix),
    {
        proof {
            lemma_shape_nonempty(self.piece.piece_type, self.piece.rotation);
            self.lemma_columns();
        }
        let edge = self.piece.board.get_last_set_col();
        if edge.is_none() {
            proof {
                let (i, j) = choose|i: int, j: int| #[trigger]
                    shape_filled(self.piece.piece_type, self.piece.rotation, i, j);
                assert(self.piece.board.filled_at(i, j));
                assert(self.piece.board.col_has_filled(j));
            }
            return false;
        }
        let edge_col = edge.unwrap();
        if !((self.c as i128) + (edge_col as i128) < (matrix.cols as i128) - 1) {
            proof {
                let i = choose|i: int| #[trigger] self.piece.board.filled_at(i, edge_col as int);
                assert(self.piece.occupied(i, edge_col as int));
            }
            return false;
        }
        proof {
            assert forall|i: int, j: int| #[trigger] self.piece.occupied(i, j) implies self.c + j < matrix.cols - 1 by {
                assert(self.piece.board.filled_at(i, j));
                assert(self.piece.board.col_has_filled(j));
            }
        }
        !self.piece.collides_right(self.r, self.c, matrix)
    }

    proof fn lemma_columns(&self)
        requires
            self.wf(),
        ensures
            forall|i: int, j: int| #[trigger] self.piece.board.filled_at(i, j) == self.piece.occupied(i, j),
            forall|i: int, j: int| #[trigger] self.piece.occupied(i, j) ==> 0 <= i < 4 && 0 <= j < 4,
    {
        assert forall|i: int, j: int| #[trigger] self.piece.board.filled_at(i, j)
            == self.piece.occupied(i, j) by {
            if self.piece.board.in_bounds(i, j) {
                assert(self.piece.board@[i][j] == crate::pieces::shape_cell(
                    self.piece.piece_type,
                    self.piece.rotation,
                    i,
                    j,
                ));
            }
        }
    }

    pub fn kick_by(&mut self, kick: Kick)
        requires
            isize::MIN <= old(self).r - kick.1 <= isize::MAX,
            isize::MIN <= old(self).c + kick.0 <= isize::MAX,
        ensures
            final(self).r == old(self).r - kick.1,
            final(self).c == old(self).c + kick.0,
            final(self).piece == old(self).piece,
    {
        self.r -= kick.1;
        self.c += kick.0;
    }

    /// The first kick candidate, for the transition from `prev_rot` to the
    /// current rotation state, with which the piece fits the board.
    pub fn can_rotate(&self, prev_rot: TetrisPieceRotation, matrix: &TetrisBoard) -> (k: Option<Kick>)
        requires
            self.wf(),
            matrix.wf(),
            self.piece.rotation == next_rotation_spec(prev_rot) || self.piece.rotation
                == prev_rotation_spec(prev_rot),
        ensures
            k == first_fit(
                self.piece.piece_type,
                self.piece.rotation,
                self.r as int,
                self.c as int,
                *matrix,
                kick_table(self.piece.piece_type, prev_rot, self.piece.rotation),
            ),
    {
        let kicks = self.piece.get_kicks(prev_rot);
        let ghost all = kicks@;
        proof {
            lemma_kick_table_shape(self.piece.piece_type, prev_rot, self.piece.rotation);
        }
        let mut n: usize = 0;
        assert(all.subrange(0, all.len() as int) =~= all);
        while n < kicks.len()
            invariant
                self.wf(),
                matrix.wf(),
                all == kicks@,
                all == kick_table(self.piece.piece_type, prev_rot, self.piece.rotation),
                forall|m: int|
                    0 <= m < all.len() ==> -2 <= (#[trigger] all[m]).0 <= 2 && -2 <= all[m].1 <= 2,
                0 <= n <= all.len(),
                first_fit(
                    self.piece.piece_type,
                    self.piece.rotation,
                    self.r as int,
                    self.c as int,
                    *matrix,
                    all,
                ) == first_fit(
                    self.piece.piece_type,
                    self.piece.rotation,
                    self.r as int,
                    self.c as int,
                    *matrix,
                    all.subrange(n as int, all.len() as int),
                ),
            decreases all.len() - n,
        {
            let kick = kicks[n];
            let ghost rest = all.subrange(n as int, all.len() as int);
            assert(rest[0] == kick);
            assert(rest.drop_first() =~= all.subrange(n + 1, all.len() as int));
            if !self.piece.collides_kick(self.r, self.c, matrix, &kick) {
                return Some(kick);
            }
            n += 1;
        }
        None
    }

    pub fn move_down(&mut self)
        requires
            old(self).r < isize::MAX,
        ensures
            final(self).r == old(self).r + 1,
            final(self).c == old(self).c,
            final(self).piece == old(self).piece,
    {
        self.r += 1;
    }

    pub fn move_left(&mut self)
        requires
            old(self).c > isize::MIN,
        ensures
            final(self).r == old(self).r,
            final(self).c == old(self).c - 1,
            final(self).piece == old(self).piece,
    {
        self.c -= 1;
    }

    pub fn move_right(&mut self)
        requires
            old(self).c < isize::MAX,
        ensures
            final(self).r == old(self).r,
            final(self).c == old(self).c + 1,
            final(self).piece == old(self).piece,
    {
        self.c += 1;
    }
}

/// The hold slot: a parked piece, and whether a swap already happened since
/// the last spawn.
pub struct HoldTetrisPiece {
    pub piece: TetrisPiece,
    pub already_hold: bool,
}

impl HoldTetrisPiece {
    /// Parks a piece, back in its spawn rotation state.
    pub fn new(piece: TetrisPiece) -> (h: Self)
        ensures
            h.piece.wf(),
            h.piece.piece_type == piece.piece_type,
            h.piece.rotation == TetrisPieceRotation::ZERO,
            !h.already_hold,
    {
        let mut piece = piece;
        piece.set_rotation(TetrisPieceRotation::ZERO);
        HoldTetrisPiece { piece, already_hold: false }
    }

    pub open spec fn can_swap_spec(obj: Option<HoldTetrisPiece>) -> bool {
        match obj {
            None => true,
            Some(h) => !h.already_hold,
        }
    }

    pub fn can_swap(obj: &Option<HoldTetrisPiece>) -> (r: bool)
        ensures
            r == Self::can_swap_spec(*obj),
    {
        match obj {
            None => true,
            Some(h) => !h.already_hold,
        }
    }

    pub fn set_hold(&mut self)
        ensures
            final(self).already_hold,
            final(self).piece == old(self).piece,
    {
        self.already_hold = true;
    }

    pub fn reset_hold(&mut self)
        ensures
            !final(self).already_hold,
            final(self).piece == old(self).piece,
    {
        self.already_hold = false;
    }
}

} // verus!
