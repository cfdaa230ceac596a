use vstd::prelude::*;

use crate::enums::{PlayableTetrisPieceType, TetrisPieceType};

verus! {

#[derive(Debug, Clone, Copy, PartialEq, Eq, Structural)]
pub enum TetrisCell {
    FilledCell(TetrisPieceType),
    EmptyCell,
}

pub open spec fn cell_filled(cell: TetrisCell) -> bool {
    cell is FilledCell
}

pub fn is_filled(cell: TetrisCell) -> (r: bool)
    ensures
        r == cell_filled(cell),
{
    match cell {
        TetrisCell::FilledCell(_) => true,
        TetrisCell::EmptyCell => false,
    }
}

pub fn playable_piece_to_cell(piece: PlayableTetrisPieceType) -> (r: TetrisCell)
    ensures
        r == TetrisCell::FilledCell(TetrisPieceType::Playable(piece)),
{
    TetrisCell::FilledCell(TetrisPieceType::Playable(piece))
}

pub fn not_playable_piece_to_cell() -> (r: TetrisCell)
    ensures
        r == TetrisCell::FilledCell(TetrisPieceType::NotPlayable),
{
    TetrisCell::FilledCell(TetrisPieceType::NotPlayable)
}

/// A row of `cols` empty cells.
pub open spec fn empty_row(cols: int) -> Seq<TetrisCell> {
    Seq::new(cols as nat, |j: int| TetrisCell::EmptyCell)
}

/// Rectangular grid of cells; row 0 is the top row.
#[derive(Debug)]
pub struct TetrisBoard {
    pub rows: isize,
    pub cols: isize,
    pub data: Vec<Vec<TetrisCell>>,
}

impl View for TetrisBoard {
    type V = Seq<Seq<TetrisCell>>;

    open spec fn view(&self) -> Seq<Seq<TetrisCell>> {
        self.data@.map_values(|r: Vec<TetrisCell>| r@)
    }
}

/// Row `r` of the board after the block of rows `to + 1 ..= from` is cleared
/// and the rows `top ..= to` above it move down by `offset = from - to`.
/// Rows below the block and rows above `top` keep their content; rows that
/// are vacated by the shift become empty.
pub open spec fn shifted_row(
    cells: Seq<Seq<TetrisCell>>,
    cols: int,
    from: int,
    to: int,
    top: int,
    r: int,
) -> Seq<TetrisCell> {
    if r > from || r < top {
        cells[r]
    } else if r - (from - to) >= top {
        cells[r - (from - to)]
    } else {
        empty_row(cols)
    }
}

/// First row taking part in the shift of a removal: `rows - last_to_copy`
/// (by default `last_to_copy` is the block size), kept within `0 ..= to + 1`.
pub open spec fn shift_top(rows: int, from: int, to: int, last_to_copy: Option<isize>) -> int {
    let l: int = match last_to_copy {
        Some(l) => l as int,
        None => from - to,
    };
    if rows - l < 0 {
        0
    } else if rows - l > to + 1 {
        to + 1
    } else {
        rows - l
    }
}

/// The board rows after removing the block `to + 1 ..= from`.
pub open spec fn removed_rows(
    cells: Seq<Seq<TetrisCell>>,
    cols: int,
    from: int,
    to: int,
    last_to_copy: Option<isize>,
) -> Seq<Seq<TetrisCell>> {
    if from == to {
        cells
    } else {
        let top = shift_top(cells.len() as int, from, to, last_to_copy);
        Seq::new(cells.len(), |r: int| shifted_row(cells, cols, from, to, top, r))
    }
}

/// A range `(from, to)` names the block of rows `to + 1 ..= from`.
pub open spec fn valid_range(rows: int, range: (isize, isize)) -> bool {
    -1 <= range.1 <= range.0 < rows
}

/// The board rows after removing every range, the topmost (last) range first,
/// so that the indices of the ranges below stay valid.
pub open spec fn removed_ranges(
    cells: Seq<Seq<TetrisCell>>,
    cols: int,
    ranges: Seq<(isize, isize)>,
    last_to_copy: Option<isize>,
) -> Seq<Seq<TetrisCell>>
    decreases ranges.len(),
{
    if ranges.len() == 0 {
        cells
    } else {
        let r = ranges.last();
        removed_ranges(
            removed_rows(cells, cols, r.0 as int, r.1 as int, last_to_copy),
            cols,
            ranges.drop_last(),
            last_to_copy,
        )
    }
}

/// Scan of the rows from `i` up to the top, grouping contiguous complete rows.
/// `pending` is the bottom row of a block of complete rows whose top has not
/// been seen yet. Each block `to + 1 ..= from` yields `(from, to)`, bottom first.
pub open spec fn scan_complete(complete: spec_fn(int) -> bool, i: int, pending: Option<int>) -> Seq<
    (int, int),
>
    decreases i + 1,
{
    if i < 0 {
        match pending {
            Some(f) => seq![(f, -1int)],
            None => seq![],
        }
    } else if complete(i) {
        scan_complete(
            complete,
            i - 1,
            match pending {
                Some(f) => Some(f),
                None => Some(i),
            },
        )
    } else {
        match pending {
            Some(f) => seq![(f, i)] + scan_complete(complete, i - 1, None),
            None => scan_complete(complete, i - 1, None),
        }
    }
}

/// Every cell of the row, up to `cols`, is filled.
pub open spec fn row_full(row: Seq<TetrisCell>, cols: int) -> bool {
    forall|j: int| 0 <= j < cols ==> #[trigger] cell_filled(row[j])
}

pub open spec fn cells_empty(cells: Seq<Seq<TetrisCell>>, rows: int, cols: int) -> bool {
    forall|i: int, j: int| 0 <= i < rows && 0 <= j < cols ==> !cell_filled(#[trigger] cells[i][j])
}

/// The blocks of complete rows of a grid, bottom block first.
pub open spec fn ranges_of(cells: Seq<Seq<TetrisCell>>, cols: int) -> Seq<(int, int)> {
    scan_complete(|i: int| row_full(cells[i], cols), cells.len() - 1, None)
}

/// Number of complete rows among the first `n` rows.
pub open spec fn count_full(cells: Seq<Seq<TetrisCell>>, cols: int, n: int) -> int
    decreases n,
{
    if n <= 0 {
        0
    } else {
        count_full(cells, cols, n - 1) + if row_full(cells[n - 1], cols) {
            1int
        } else {
            0
        }
    }
}

impl TetrisBoard {
    pub open spec fn wf(&self) -> bool {
        &&& 0 <= self.rows
        &&& 0 <= self.cols
        &&& self@.len() == self.rows
        &&& forall|i: int| 0 <= i < self.rows ==> #[trigger] self@[i].len() == self.cols
    }

    pub open spec fn in_bounds(&self, i: int, j: int) -> bool {
        0 <= i < self.rows && 0 <= j < self.cols
    }

    /// The cell at `(i, j)` is on the board and filled.
    pub open spec fn filled_at(&self, i: int, j: int) -> bool {
        self.in_bounds(i, j) && cell_filled(self@[i][j])
    }

    pub open spec fn row_complete(&self, i: int) -> bool {
        row_full(self@[i], self.cols as int)
    }

    pub open spec fn all_empty(&self) -> bool {
        cells_empty(self@, self.rows as int, self.cols as int)
    }

    pub open spec fn col_has_filled(&self, j: int) -> bool {
        exists|i: int| #[trigger] self.filled_at(i, j)
    }

    pub open spec fn completed_ranges(&self) -> Seq<(int, int)> {
        ranges_of(self@, self.cols as int)
    }

    proof fn lemma_view(&self)
        ensures
            self@.len() == self.data@.len(),
            forall|i: int| 0 <= i < self.data@.len() ==> #[trigger] self@[i] == self.data@[i]@,
    {
    }

    fn empty_row_vec(cols: isize) -> (r: Vec<TetrisCell>)
        requires
            0 <= cols,
        ensures
            r@ == empty_row(cols as int),
    {
        let mut row: Vec<TetrisCell> = Vec::new();
        let mut j: isize = 0;
        while j < cols
            invariant
                0 <= j <= cols,
                row@ == empty_row(j as int),
            decreases cols - j,
        {
            row.push(TetrisCell::EmptyCell);
            j += 1;
            assert(row@ =~= empty_row(j as int));
        }
        row
    }

    fn copy_row(row: &Vec<TetrisCell>) -> (r: Vec<TetrisCell>)
        ensures
            r@ == row@,
    {
        let mut out: Vec<TetrisCell> = Vec::new();
        let mut j: usize = 0;
        while j < row.len()
            invariant
                0 <= j <= row@.len(),
                out@ == row@.subrange(0, j as int),
            decreases row@.len() - j,
        {
            out.push(row[j]);
            j += 1;
            assert(out@ =~= row@.subrange(0, j as int));
        }
        assert(out@ =~= row@);
        out
    }

    pub fn new(rows: isize, cols: isize) -> (b: Self)
        requires
            0 <= rows,
            0 <= cols,
        ensures
            b.wf(),
            b.rows == rows,
            b.cols == cols,
            b.all_empty(),
            forall|i: int| 0 <= i < rows ==> #[trigger] b@[i] == empty_row(cols as int),
    {
        let mut data: Vec<Vec<TetrisCell>> = Vec::new();
        let mut i: isize = 0;
        while i < rows
            invariant
                0 <= i <= rows,
                0 <= cols,
                data@.len() == i,
                forall|k: int| 0 <= k < i ==> #[trigger] data@[k]@ == empty_row(cols as int),
            decreases rows - i,
        {
            data.push(Self::empty_row_vec(cols));
            i += 1;
        }
        let b = TetrisBoard { rows, cols, data };
        proof {
            b.lemma_view();
        }
        b
    }

    pub fn get(&self, i: isize, j: isize) -> (c: TetrisCell)
        requires
            self.wf(),
            self.in_bounds(i as int, j as int),
        ensures
            c == self@[i as int][j as int],
    {
        proof {
            self.lemma_view();
        }
        self.data[i as usize][j as usize]
    }

    pub fn is_in_bounds(&self, i: isize, j: isize) -> (r: bool)
        ensures
            r == self.in_bounds(i as int, j as int),
    {
        !(i >= self.rows || j >= self.cols || i < 0 || j < 0)
    }

    /// Bounds-safe query: false for any coordinate off the board.
    pub fn is_set(&self, i: isize, j: isize) -> (r: bool)
        requires
            self.wf(),
        ensures
            r == self.filled_at(i as int, j as int),
    {
        if !self.is_in_bounds(i, j) {
            false
        } else {
            is_filled(self.get(i, j))
        }
    }

    /// Bounds-safe query at wide coordinates, which no sum of an anchor and
    /// an offset can overflow.
    pub fn is_set_at(&self, i: i128, j: i128) -> (r: bool)
        requires
            self.wf(),
        ensures
            r == self.filled_at(i as int, j as int),
    {
        if i < 0 || j < 0 || i >= self.rows as i128 || j >= self.cols as i128 {
            false
        } else {
            self.is_set(i as isize, j as isize)
        }
    }

    pub fn set(&mut self, i: isize, j: isize, p: TetrisPieceType)
        requires
            old(self).wf(),
            old(self).in_bounds(i as int, j as int),
        ensures
            final(self).wf(),
            final(self).rows == old(self).rows,
            final(self).cols == old(self).cols,
            final(self)@ == old(self)@.update(
                i as int,
                old(self)@[i as int].update(j as int, TetrisCell::FilledCell(p)),
            ),
    {
        self.set_val(i, j, TetrisCell::FilledCell(p));
    }

    pub fn clear(&mut self, i: isize, j: isize)
        requires
            old(self).wf(),
            old(self).in_bounds(i as int, j as int),
        ensures
            final(self).wf(),
            final(self).rows == old(self).rows,
            final(self).cols == old(self).cols,
            final(self)@ == old(self)@.update(
                i as int,
                old(self)@[i as int].update(j as int, TetrisCell::EmptyCell),
            ),
    {
        self.set_val(i, j, TetrisCell::EmptyCell);
    }

    pub fn set_val(&mut self, i: isize, j: isize, b: TetrisCell)
        requires
            old(self).wf(),
            old(self).in_bounds(i as int, j as int),
        ensures
            final(self).wf(),
            final(self).rows == old(self).rows,
            final(self).cols == old(self).cols,
            final(self)@ == old(self)@.update(i as int, old(self)@[i as int].update(j as int, b)),
    {
        proof {
            self.lemma_view();
        }
        assert(self@[i as int].len() == self.cols);
        let iu = i as usize;
        let mut row = Self::copy_row(&self.data[iu]);
        row.set(j as usize, b);
        self.data.set(iu, row);
        proof {
            self.lemma_view();
            assert(self@ =~= old(self)@.update(i as int, old(self)@[i as int].update(j as int, b)));
        }
    }

    pub fn is_complete(&self, i: isize) -> (r: bool)
        requires
            self.wf(),
            0 <= i < self.rows,
        ensures
            r == self.row_complete(i as int),
    {
        let mut j: isize = 0;
        while j < self.cols
            invariant
                self.wf(),
                0 <= i < self.rows,
                0 <= j <= self.cols,
                forall|k: int| 0 <= k < j ==> #[trigger] cell_filled(self@[i as int][k]),
            decreases self.cols - j,
        {
            if !is_filled(self.get(i, j)) {
                return false;
            }
            j += 1;
        }
        true
    }

    pub fn is_empty(&self) -> (r: bool)
        requires
            self.wf(),
        ensures
            r == self.all_empty(),
    {
        let mut i: isize = 0;
        while i < self.rows
            invariant
                self.wf(),
                0 <= i <= self.rows,
                forall|a: int, b: int|
                    0 <= a < i && 0 <= b < self.cols ==> !cell_filled(#[trigger] self@[a][b]),
            decreases self.rows - i,
        {
            let mut j: isize = 0;
            while j < self.cols
                invariant
                    self.wf(),
                    0 <= i < self.rows,
                    0 <= j <= self.cols,
                    forall|a: int, b: int|
                        0 <= a < i && 0 <= b < self.cols ==> !cell_filled(#[trigger] self@[a][b]),
                    forall|b: int| 0 <= b < j ==> !cell_filled(#[trigger] self@[i as int][b]),
                decreases self.cols - j,
            {
                if is_filled(self.get(i, j)) {
                    assert(self.in_bounds(i as int, j as int));
                    return false;
                }
                j += 1;
            }
            i += 1;
        }
        true
    }

    /// Contiguous blocks of complete rows, bottom block first. A block of rows
    /// `to + 1 ..= from` is reported as `(from, to)`: `to` is the row just
    /// above the block, `-1` when the block reaches the top.
    pub fn completed_rows(&self) -> (ranges: Vec<(isize, isize)>)
        requires
            self.wf(),
        ensures
            ranges@.len() == self.completed_ranges().len(),
            forall|k: int|
                0 <= k < ranges@.len() ==> (#[trigger] ranges@[k]).0 as int
                    == self.completed_ranges()[k].0 && ranges@[k].1 as int
                    == self.completed_ranges()[k].1,
            forall|k: int| 0 <= k < ranges@.len() ==> valid_range(self.rows as int, #[trigger] ranges@[k]),
    {
        let ghost complete = |i: int| row_full(self@[i], self.cols as int);
        let ghost total = self.completed_ranges();
        let mut ranges: Vec<(isize, isize)> = Vec::new();
        let mut from: Option<isize> = None;
        let mut i: isize = self.rows - 1;
        while i >= 0
            invariant
                self.wf(),
                -1 <= i < self.rows,
                complete == (|i: int| row_full(self@[i], self.cols as int)),
                total == scan_complete(complete, self.rows - 1, None),
                ranges@.map_values(|r: (isize, isize)| (r.0 as int, r.1 as int)) + scan_complete(
                    complete,
                    i as int,
                    match from {
                        Some(f) => Some(f as int),
                        None => None,
                    },
                ) == total,
                match from {
                    Some(f) => i < f < self.rows,
                    None => true,
                },
                forall|k: int| 0 <= k < ranges@.len() ==> valid_range(self.rows as int, #[trigger] ranges@[k]),
            decreases i + 1,
        {
            let ghost before = ranges@.map_values(|r: (isize, isize)| (r.0 as int, r.1 as int));
            if self.is_complete(i) {
                if from.is_none() {
                    from = Some(i);
                }
            } else {
                match from {
                    Some(f) => {
                        ranges.push((f, i));
                        from = None;
                        assert(ranges@.map_values(|r: (isize, isize)| (r.0 as int, r.1 as int))
                            =~= before + seq![(f as int, i as int)]);
                    },
                    None => {},
                }
            }
            i -= 1;
        }
        let ghost before = ranges@.map_values(|r: (isize, isize)| (r.0 as int, r.1 as int));
        match from {
            Some(f) => {
                ranges.push((f, -1));
                assert(ranges@.map_values(|r: (isize, isize)| (r.0 as int, r.1 as int))
                    =~= before + seq![(f as int, -1int)]);
            },
            None => {
                assert(before + seq![] =~= before);
            },
        }
        proof {
            let m = ranges@.map_values(|r: (isize, isize)| (r.0 as int, r.1 as int));
            assert(m =~= total);
            assert forall|k: int| 0 <= k < ranges@.len() implies (#[trigger] ranges@[k]).0 as int
                == total[k].0 && ranges@[k].1 as int == total[k].1 by {
                assert(m[k] == total[k]);
            }
        }
        ranges
    }

    /// Removes the ranges, topmost first, so each range's indices refer to the
    /// board as it was when the ranges were computed.
    pub fn remove_ranges(&mut self, ranges: Vec<(isize, isize)>, last_to_copy: Option<isize>)
        requires
            old(self).wf(),
            forall|k: int| 0 <= k < ranges@.len() ==> valid_range(old(self).rows as int, #[trigger] ranges@[k]),
        ensures
            final(self).wf(),
            final(self).rows == old(self).rows,
            final(self).cols == old(self).cols,
            final(self)@ == removed_ranges(old(self)@, old(self).cols as int, ranges@, last_to_copy),
    {
        let mut k: usize = ranges.len();
        assert(ranges@.subrange(0, k as int) =~= ranges@);
        while k > 0
            invariant
                self.wf(),
                self.rows == old(self).rows,
                self.cols == old(self).cols,
                0 <= k <= ranges@.len(),
                forall|m: int| 0 <= m < ranges@.len() ==> valid_range(self.rows as int, #[trigger] ranges@[m]),
                removed_ranges(old(self)@, self.cols as int, ranges@, last_to_copy) == removed_ranges(
                    self@,
                    self.cols as int,
                    ranges@.subrange(0, k as int),
                    last_to_copy,
                ),
            decreases k,
        {
            let ghost pre = self@;
            let range = ranges[k - 1];
            self.remove_rows(range.0, range.1, last_to_copy);
            proof {
                let sub = ranges@.subrange(0, k as int);
                assert(sub.last() == range);
                assert(sub.drop_last() =~= ranges@.subrange(0, k - 1));
            }
            k -= 1;
        }
        assert(ranges@.subrange(0, 0) =~= Seq::<(isize, isize)>::empty());
    }

    /// Row snapshot, read-only.
    pub fn rows(&self) -> (r: &Vec<Vec<TetrisCell>>)
        requires
            self.wf(),
        ensures
            r@.len() == self@.len(),
            forall|i: int| 0 <= i < r@.len() ==> #[trigger] r@[i]@ == self@[i],
    {
        &self.data
    }

    /// Clears the block of rows `to + 1 ..= from`, then moves the rows from
    /// `shift_top` down to `to` down by the block size; rows vacated at the
    /// top of the shifted region become empty.
    pub fn remove_rows(&mut self, from: isize, to: isize, last_to_copy: Option<isize>)
        requires
            old(self).wf(),
            -1 <= to <= from < old(self).rows,
        ensures
            final(self).wf(),
            final(self).rows == old(self).rows,
            final(self).cols == old(self).cols,
            final(self)@ == removed_rows(
                old(self)@,
                old(self).cols as int,
                from as int,
                to as int,
                last_to_copy,
            ),
    {
        if from == to {
            return;
        }
        let offset = from - to;
        let l: isize = match last_to_copy {
            Some(l) => l,
            None => offset,
        };
        let top: isize = if l >= self.rows {
            0
        } else if l <= self.rows - (to + 1) {
            to + 1
        } else {
            self.rows - l
        };
        assert(top == shift_top(self.rows as int, from as int, to as int, last_to_copy));
        let ghost cells = self@;
        let mut data: Vec<Vec<TetrisCell>> = Vec::new();
        let mut r: isize = 0;
        proof {
            self.lemma_view();
        }
        while r < self.rows
            invariant
                self.wf(),
                self@ == cells,
                -1 <= to < from < self.rows,
                offset == from - to,
                0 <= top <= to + 1,
                0 <= r <= self.rows,
                data@.len() == r,
                forall|k: int|
                    0 <= k < r ==> #[trigger] data@[k]@ == shifted_row(
                        cells,
                        self.cols as int,
                        from as int,
                        to as int,
                        top as int,
                        k,
                    ),
            decreases self.rows - r,
        {
            proof {
                self.lemma_view();
            }
            let row = if r > from || r < top {
                Self::copy_row(&self.data[r as usize])
            } else if r - offset >= top {
                Self::copy_row(&self.data[(r - offset) as usize])
            } else {
                Self::empty_row_vec(self.cols)
            };
            data.push(row);
            r += 1;
        }
        self.data = data;
        proof {
            self.lemma_view();
            let target = removed_rows(cells, self.cols as int, from as int, to as int, last_to_copy);
            assert(self@ =~= target);
            assert forall|i: int| 0 <= i < self.rows implies #[trigger] self@[i].len() == self.cols by {
                assert(self@[i] == shifted_row(cells, self.cols as int, from as int, to as int, top as int, i));
            }
        }
    }

    /// Number of complete rows.
    pub fn count_complete_rows(&self) -> (n: usize)
        requires
            self.wf(),
        ensures
            n == count_full(self@, self.cols as int, self.rows as int),
            n <= self.rows,
    {
        let mut n: usize = 0;
        let mut i: isize = 0;
        while i < self.rows
            invariant
                self.wf(),
                0 <= i <= self.rows,
                n == count_full(self@, self.cols as int, i as int),
                n <= i,
            decreases self.rows - i,
        {
            if self.is_complete(i) {
                n += 1;
            }
            i += 1;
        }
        n
    }

    /// Leftmost column holding a filled cell.
    pub fn get_first_set_col(&self) -> (r: Option<isize>)
        requires
            self.wf(),
        ensures
            match r {
                Some(j) => 0 <= j < self.cols && self.col_has_filled(j as int) && forall|k: int|
                    0 <= k < j ==> !#[trigger] self.col_has_filled(k),
                None => forall|k: int| 0 <= k < self.cols ==> !#[trigger] self.col_has_filled(k),
            },
    {
        let mut j: isize = 0;
        while j < self.cols
            invariant
                self.wf(),
                0 <= j <= self.cols,
                forall|k: int| 0 <= k < j ==> !#[trigger] self.col_has_filled(k),
            decreases self.cols - j,
        {
            if self.column_filled(j) {
                return Some(j);
            }
            j += 1;
        }
        None
    }

    /// Rightmost column holding a filled cell.
    pub fn get_last_set_col(&self) -> (r: Option<isize>)
        requires
            self.wf(),
        ensures
            match r {
                Some(j) => 0 <= j < self.cols && self.col_has_filled(j as int) && forall|k: int|
                    j < k < self.cols ==> !#[trigger] self.col_has_filled(k),
                None => forall|k: int| 0 <= k < self.cols ==> !#[trigger] self.col_has_filled(k),
            },
    {
        let mut j: isize = self.cols;
        while j > 0
            invariant
                self.wf(),
                0 <= j <= self.cols,
                forall|k: int| j <= k < self.cols ==> !#[trigger] self.col_has_filled(k),
            decreases j,
        {
            if self.column_filled(j - 1) {
                return Some(j - 1);
            }
            j -= 1;
        }
        None
    }

    fn column_filled(&self, j: isize) -> (r: bool)
        requires
            self.wf(),
            0 <= j < self.cols,
        ensures
            r == self.col_has_filled(j as int),
    {
        let mut i: isize = 0;
        while i < self.rows
            invariant
                self.wf(),
                0 <= j < self.cols,
                0 <= i <= self.rows,
                forall|a: int| 0 <= a < i ==> !#[trigger] self.filled_at(a, j as int),
            decreases self.rows - i,
        {
            if self.is_set(i, j) {
                return true;
            }
            i += 1;
        }
        false
    }
}

/// When every row from `i` up to the top is complete, the scan closes the
/// pending block at the top of the board.
proof fn lemma_scan_all_complete(complete: spec_fn(int) -> bool, i: int, f: int)
    requires
        forall|k: int| 0 <= k <= i ==> #[trigger] complete(k),
    ensures
        scan_complete(complete, i, Some(f)) == seq![(f, -1int)],
    decreases i + 1,
{
    if i >= 0 {
        lemma_scan_all_complete(complete, i - 1, f);
    }
}

/// Full clear: when every row of a non-empty board is complete, removing the
/// completed ranges, with the shift reaching up to the top row, leaves the
/// board entirely empty.
pub proof fn lemma_full_clear(b: TetrisBoard, ranges: Seq<(isize, isize)>)
    requires
        b.wf(),
        b.rows > 0,
        forall|i: int| 0 <= i < b.rows ==> #[trigger] b.row_complete(i),
        ranges.len() == b.completed_ranges().len(),
        forall|k: int|
            0 <= k < ranges.len() ==> (#[trigger] ranges[k]).0 as int == b.completed_ranges()[k].0
                && ranges[k].1 as int == b.completed_ranges()[k].1,
    ensures
        ranges.len() == 1,
        forall|i: int, j: int|
            0 <= i < b.rows && 0 <= j < b.cols ==> !cell_filled(
                #[trigger] removed_ranges(b@, b.cols as int, ranges, Some(b.rows))[i][j],
            ),
{
    let complete = |i: int| row_full(b@[i], b.cols as int);
    assert forall|k: int| 0 <= k <= b.rows - 2 implies #[trigger] complete(k) by {
        assert(b.row_complete(k));
    }
    assert(complete(b.rows - 1)) by {
        assert(b.row_complete(b.rows - 1));
    }
    lemma_scan_all_complete(complete, b.rows - 2, b.rows - 1);
    assert(b.completed_ranges() == scan_complete(complete, b.rows - 1, None));
    assert(b.completed_ranges() == seq![(b.rows - 1, -1int)]);
    assert(ranges[0].0 == b.rows - 1 && ranges[0].1 == -1);
    assert(ranges.drop_last() =~= Seq::<(isize, isize)>::empty());
    let after = removed_rows(b@, b.cols as int, b.rows - 1, -1, Some(b.rows));
    assert(removed_ranges(b@, b.cols as int, ranges, Some(b.rows)) == removed_ranges(
        after,
        b.cols as int,
        ranges.drop_last(),
        Some(b.rows),
    ));
    assert forall|i: int, j: int| 0 <= i < b.rows && 0 <= j < b.cols implies !cell_filled(
        #[trigger] removed_ranges(b@, b.cols as int, ranges, Some(b.rows))[i][j],
    ) by {
        assert(after[i] == empty_row(b.cols as int));
    }
}

} // verus!
