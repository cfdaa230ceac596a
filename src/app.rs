use vstd::prelude::*;
use vstd::string::StringSliceAdditionalSpecFns;

use std::collections::VecDeque;

use crate::app_structs::{
    first_fit, rotation_step, stamped, HoldTetrisPiece, PieceState, TetrisPieceWithPosition,
};
use crate::bag::PieceBag;
use crate::board::{cells_empty, count_full, ranges_of, removed_ranges, TetrisBoard, TetrisCell};
use crate::enums::{
    lemma_rotation_inverse, next_rotation_spec, prev_rotation_spec, PlayableTetrisPieceType,
    TetrisPieceRotation, TetrisPieceType,
};
use crate::kicks::{is_not_empty, kick_table, lemma_kick_table_shape, Kick};
use crate::pieces::{lemma_shape_nonempty, shape_collides, shape_filled, TetrisPiece};
use crate::score::{b2b_worth, bump, next_score, ScoreState, ScoreType};

verus! {

/// Board rows.
pub const R: isize = 20;

/// Board columns.
pub const C: isize = 10;

/// Gravity is counted in millionths of a cell per tick.
pub const GRAVITY_UNIT: u64 = 1000000;

/// Auto-repeat periods are counted in thousandths of a tick.
pub const FRAME_UNIT: u64 = 1000;

/// Number of upcoming pieces shown ahead.
pub const QUEUE_LEN: usize = 5;

/// Largest accepted gravity, soft-drop factor and auto-repeat period.
pub const MAX_PARAM: u64 = 0xffff_ffff;

/// Timing parameters, fixed for a game.
#[derive(Debug, Clone, Copy, PartialEq, Eq, Structural)]
pub struct GameParams {
    /// Cells per tick, in `GRAVITY_UNIT`s.
    pub gravity: u64,
    /// Gravity multiplier while soft drop is held.
    pub soft_drop_factor: u64,
    /// Ticks a direction is held before auto-repeat starts.
    pub das: u32,
    /// Ticks per auto-repeat step, in `FRAME_UNIT`s.
    pub arr: u64,
    /// Ticks a grounded piece waits before it locks.
    pub lock_delay: u32,
}

impl GameParams {
    pub open spec fn valid(&self) -> bool {
        &&& 0 < self.gravity <= MAX_PARAM
        &&& 0 < self.soft_drop_factor <= MAX_PARAM
        &&& 0 < self.das
        &&& 0 < self.arr <= MAX_PARAM
    }
}

/// Last input action, as T-spin detection needs it.
#[derive(Debug, Clone, Copy, PartialEq, Eq, Structural)]
pub enum Moves {
    FALL,
    ROTATE,
    SIDE,
    DOWN,
    UP,
}

#[derive(Debug, Clone, Copy, PartialEq, Eq, Structural)]
pub enum SideMoves {
    LEFT,
    RIGHT,
}

#[derive(Debug, Clone, Copy, PartialEq, Eq, Structural)]
pub enum TetrisUpdateResult {
    Continue,
    GameOver,
}

/// Whether the cell is off the board or filled.
pub open spec fn corner_blocked(cells: Seq<Seq<TetrisCell>>, i: int, j: int) -> bool {
    !(0 <= i < R && 0 <= j < C) || cells[i][j] is FilledCell
}

pub open spec fn blocked_count(cells: Seq<Seq<TetrisCell>>, i: int, j: int) -> int {
    (if corner_blocked(cells, i - 1, j - 1) {
        1int
    } else {
        0
    }) + (if corner_blocked(cells, i - 1, j + 1) {
        1int
    } else {
        0
    }) + (if corner_blocked(cells, i + 1, j - 1) {
        1int
    } else {
        0
    }) + (if corner_blocked(cells, i + 1, j + 1) {
        1int
    } else {
        0
    })
}

/// T-spin: a T locked right after a rotation, clearing rows, with at least
/// three of the four diagonal cells around its center blocked.
pub open spec fn t_spin(
    kind: PlayableTetrisPieceType,
    last_move: Moves,
    cleared: int,
    cells: Seq<Seq<TetrisCell>>,
    row: int,
    col: int,
) -> bool {
    kind == PlayableTetrisPieceType::T && last_move == Moves::ROTATE && cleared > 0 && blocked_count(
        cells,
        row + 1,
        col + 1,
    ) >= 3
}

pub open spec fn as_ranges(r: Seq<(int, int)>) -> Seq<(isize, isize)> {
    r.map_values(|p: (int, int)| (p.0 as isize, p.1 as isize))
}

/// The board after locking a piece of `kind` in `rot` at `(row, col)`: the
/// piece is stamped, then the completed rows are collapsed with the shift
/// reaching the top row.
pub open spec fn locked_cells(
    cells: Seq<Seq<TetrisCell>>,
    kind: PlayableTetrisPieceType,
    rot: TetrisPieceRotation,
    row: int,
    col: int,
) -> Seq<Seq<TetrisCell>> {
    let st = stamped(cells, kind, rot, row, col);
    removed_ranges(st, C as int, as_ranges(ranges_of(st, C as int)), Some(R))
}

/// The score state after that lock, classified from the rows it completed,
/// the last action before it, and whether it left the board empty.
pub open spec fn locked_score(
    cells: Seq<Seq<TetrisCell>>,
    kind: PlayableTetrisPieceType,
    rot: TetrisPieceRotation,
    row: int,
    col: int,
    last_move: Moves,
    score: ScoreState,
) -> ScoreState {
    let st = stamped(cells, kind, rot, row, col);
    let cleared = count_full(st, C as int, R as int);
    next_score(
        score,
        cleared as u32,
        t_spin(kind, last_move, cleared, st, row, col),
        cells_empty(locked_cells(cells, kind, rot, row, col), R as int, C as int),
    )
}

/// Gravity after soft drop is pressed.
pub open spec fn soft_drop_pressed(before: App, after: App) -> bool {
    after.base_gravity() == before.base_gravity() && after.soft_drop_factor()
        == before.soft_drop_factor() && after.gravity() == before.base_gravity()
        * before.soft_drop_factor()
}

/// Gravity after soft drop is released.
pub open spec fn soft_drop_released(before: App, after: App) -> bool {
    after.base_gravity() == before.base_gravity() && after.soft_drop_factor()
        == before.soft_drop_factor() && after.gravity() == before.base_gravity()
}

/// A hard drop from `before` landed on row `s`, the first row at or below the
/// piece where it is grounded, and locked there.
pub open spec fn hard_drop_outcome(before: App, after: App, s: int) -> bool {
    let a = before.active().unwrap();
    let p = before.piece_spec().unwrap().piece;
    &&& a.2 <= s
    &&& p.collides_on_next_spec(s, a.3, before.board_spec())
    &&& forall|t: int| a.2 <= t < s ==> !#[trigger] p.collides_on_next_spec(t, a.3, before.board_spec())
    &&& after.cells() == locked_cells(before.cells(), a.0, a.1, s, a.3)
    &&& after.scores() == locked_score(
        before.cells(),
        a.0,
        a.1,
        s,
        a.3,
        before.last_action(),
        before.scores(),
    )
}

/// Row of a piece anchored in column `col` after up to `steps` one-row
/// falls from `row`, stopping as soon as it is grounded.
pub open spec fn fall_row(p: TetrisPiece, col: int, board: TetrisBoard, row: int, steps: nat) -> int
    decreases steps,
{
    if steps == 0 || p.collides_on_next_spec(row, col, board) {
        row
    } else {
        fall_row(p, col, board, row + 1, (steps - 1) as nat)
    }
}

/// One simulation tick from `before` to `after` with result `res`: a
/// finished game stays as it is; a piece grounded right at its spawn ends
/// the game; otherwise the lateral repeat moves the piece, a piece in the
/// air falls under gravity and resets the lock counter, and a grounded piece
/// counts towards its lock delay, locking when the delay is reached and
/// spawning the next queued piece.
pub open spec fn tick(before: App, after: App, res: TetrisUpdateResult) -> bool {
    let a = before.active().unwrap();
    let locks = before.grounded() && before.lock_counter() == before.lock_delay();
    let lateral = lateral_step(
        before.piece_spec().unwrap().piece,
        a.2,
        a.3,
        before.board_spec(),
        before.side_input().0,
        before.side_input().1,
        before.side_input().2,
        before.timing().das,
        before.timing().arr,
    );
    &&& before.over() ==> res == TetrisUpdateResult::GameOver && after == before
    &&& !before.over() && before.active() is None ==> res == TetrisUpdateResult::Continue && after
        == before
    &&& res == TetrisUpdateResult::GameOver ==> after.over()
    &&& !before.over() && before.active() is Some && before.just_spawned() && before.grounded()
        ==> res == TetrisUpdateResult::GameOver && after.over() && after.same_but_over(before)
    &&& !before.over() && before.active() is Some && !(before.just_spawned() && before.grounded())
        ==> {
        &&& res == TetrisUpdateResult::Continue
        &&& after.active() is Some
        &&& !locks ==> {
            let b = after.active().unwrap();
            &&& b.0 == a.0 && b.1 == a.1
            &&& b.3 == lateral.0
            &&& after.side_input() == (before.side_input().0, lateral.1, lateral.2 as i64)
            &&& !after.just_spawned()
            &&& after.cells() == before.cells()
            &&& after.scores() == before.scores()
            &&& after.queue() == before.queue()
            &&& after.drawn() == before.drawn()
            &&& after.hold() == before.hold()
            &&& after.gravity() == before.gravity()
            &&& after.last_action() == if b.2 != a.2 {
                Moves::FALL
            } else if b.3 != a.3 {
                Moves::SIDE
            } else {
                before.last_action()
            }
            &&& !before.grounded() ==> {
                &&& after.lock_counter() == 0
                &&& b.2 == fall_row(
                    before.piece_spec().unwrap().piece,
                    b.3,
                    before.board_spec(),
                    a.2,
                    ((before.fall_progress() + before.gravity()) / (GRAVITY_UNIT as int)) as nat,
                )
                &&& after.fall_progress() as int == (before.fall_progress() + before.gravity()) % (
                GRAVITY_UNIT as int)
            }
            &&& before.grounded() ==> {
                &&& b.2 == a.2
                &&& after.fall_progress() == before.fall_progress()
                &&& after.lock_counter() == if b.3 != a.3 {
                    0
                } else {
                    (before.lock_counter() + 1) as u32
                }
            }
        }
        &&& locks ==> {
            let b = after.active().unwrap();
            &&& after.cells() == locked_cells(before.cells(), a.0, a.1, a.2, a.3)
            &&& after.scores() == locked_score(
                before.cells(),
                a.0,
                a.1,
                a.2,
                a.3,
                before.last_action(),
                before.scores(),
            )
            &&& b.0 == before.queue().last() && b.1 == TetrisPieceRotation::ZERO && b.2 == 0
            &&& before.side_input().0 is None ==> b.3 == spawn_col()
            &&& after.drawn() == before.drawn().push(after.queue()[0])
            &&& after.queue() == seq![after.queue()[0]] + before.queue().drop_last()
            &&& after.hold() == match before.hold() {
                Some(h) => Some((h.0, h.1, false)),
                None => None,
            }
            &&& after.gravity() == before.base_gravity()
            &&& after.fall_progress() == 0
            &&& after.just_spawned()
        }
    }
}

/// Number of whole periods in `m`.
pub open spec fn repeat_count(m: int, period: int) -> nat
    decreases m,
{
    if period <= 0 || m < period {
        0
    } else {
        1 + repeat_count(m - period, period)
    }
}

/// What is left of `m` after its whole periods.
pub open spec fn repeat_rest(m: int, period: int) -> int
    decreases m,
{
    if period <= 0 || m < period {
        m
    } else {
        repeat_rest(m - period, period)
    }
}

/// Column reached by `n` one-column attempts from `col` (rightwards when
/// `right`), stopping at the first blocked attempt.
pub open spec fn slide_col(
    p: TetrisPiece,
    row: int,
    col: int,
    board: TetrisBoard,
    right: bool,
    n: nat,
) -> int
    decreases n,
{
    let pos = TetrisPieceWithPosition { r: row as isize, c: col as isize, piece: p };
    if n == 0 || !(if right {
        pos.can_move_right(board)
    } else {
        pos.can_move_left(board)
    }) {
        col
    } else {
        slide_col(
            p,
            row,
            if right {
                col + 1
            } else {
                col - 1
            },
            board,
            right,
            (n - 1) as nat,
        )
    }
}

/// Lateral movement of one tick, as (column, ticks held, repeat accumulator).
/// With no direction held the accumulator resets. Before the auto-shift
/// delay only the first tick moves, by one column. From the delay on, the
/// accumulator, whose sign is that of the held direction, grows in magnitude
/// by one tick (in thousandths); each whole auto-repeat period in it is one
/// attempt towards the held direction, and the remainder stays.
pub open spec fn lateral_step(
    p: TetrisPiece,
    row: int,
    col: int,
    board: TetrisBoard,
    held: Option<SideMoves>,
    frames: u32,
    acc: i64,
    das: u32,
    arr: u64,
) -> (int, u32, int) {
    match held {
        None => (col, frames, 0),
        Some(d) => {
            let right = d == SideMoves::RIGHT;
            let f = if frames < u32::MAX {
                (frames + 1) as u32
            } else {
                frames
            };
            if frames < das {
                if frames == 0 {
                    (slide_col(p, row, col, board, right, 1), f, acc as int)
                } else {
                    (col, f, acc as int)
                }
            } else {
                let m = (if right {
                    acc as int
                } else {
                    -acc
                }) + FRAME_UNIT;
                (
                    slide_col(p, row, col, board, right, repeat_count(m, arr as int)),
                    f,
                    if right {
                        repeat_rest(m, arr as int)
                    } else {
                        -repeat_rest(m, arr as int)
                    },
                )
            }
        },
    }
}

/// The spawn anchor of every piece.
pub open spec fn spawn_col() -> isize {
    (C / 2 - 1) as isize
}

/// Game state of one player: board, active piece, hold slot, queue, timing
/// counters and score.
pub struct App {
    board: TetrisBoard,
    piece: Option<TetrisPieceWithPosition>,
    pause: bool,
    just_placed: bool,
    game_over: bool,
    hold_piece: Option<HoldTetrisPiece>,
    bag: PieceBag,
    down_movement_accumulator: u64,
    side_movement_accumulator: i64,
    frames_for_das: u32,
    current_gravity: u64,
    buffer_next_pieces: VecDeque<PlayableTetrisPieceType>,
    last_move: Moves,
    score: ScoreState,
    lock_timer: u32,
    last_kick: Option<Kick>,
    config: GameParams,
    side_move_to_perform: Option<SideMoves>,
}

proof fn lemma_piece_bounds(p: TetrisPieceWithPosition, board: TetrisBoard)
    requires
        p.wf(),
        p.inside(board),
        board.rows == R,
        board.cols == C,
    ensures
        -4 < p.r < R,
        -4 < p.c < C,
        forall|i: int, j: int| #[trigger] p.piece.occupied(i, j) ==> 0 <= i < 4 && 0 <= j < 4,
{
    lemma_shape_nonempty(p.piece.piece_type, p.piece.rotation);
    let (i, j) = choose|i: int, j: int| #[trigger]
        shape_filled(p.piece.piece_type, p.piece.rotation, i, j);
    assert(p.piece.occupied(i, j));
}

proof fn lemma_first_fit(
    kind: PlayableTetrisPieceType,
    rot: TetrisPieceRotation,
    row: int,
    col: int,
    board: TetrisBoard,
    kicks: Seq<Kick>,
)
    ensures
        match first_fit(kind, rot, row, col, board, kicks) {
            Some(k) => !shape_collides(kind, rot, row - k.1, col + k.0, board) && kicks.contains(k),
            None => true,
        },
    decreases kicks.len(),
{
    if kicks.len() > 0 {
        lemma_first_fit(kind, rot, row, col, board, kicks.drop_first());
        match first_fit(kind, rot, row, col, board, kicks.drop_first()) {
            Some(k) => {
                if shape_collides(kind, rot, row - kicks[0].1, col + kicks[0].0, board) {
                    let m = choose|m: int| 0 <= m < kicks.drop_first().len() && kicks.drop_first()[m] == k;
                    assert(kicks[m + 1] == k);
                }
            },
            None => {},
        }
    }
}

impl App {
    /// Everything but the active piece's placement.
    pub closed spec fn wf_base(&self) -> bool {
        &&& self.board.wf()
        &&& self.board.rows == R
        &&& self.board.cols == C
        &&& self.config.valid()
        &&& match self.hold_piece {
            Some(h) => h.piece.wf() && h.piece.rotation == TetrisPieceRotation::ZERO,
            None => true,
        }
        &&& match self.side_move_to_perform {
            None => self.side_movement_accumulator == 0,
            Some(SideMoves::RIGHT) => self.side_movement_accumulator >= 0,
            Some(SideMoves::LEFT) => self.side_movement_accumulator <= 0,
        }
        &&& self.bag.wf()
        &&& self.lock_timer <= self.config.lock_delay
        &&& self.down_movement_accumulator < GRAVITY_UNIT
        &&& -(self.config.arr as int) < self.side_movement_accumulator < self.config.arr as int
        &&& (self.current_gravity == self.config.gravity || self.current_gravity
            == self.config.gravity * self.config.soft_drop_factor)
    }

    /// The active piece, if any, lies on the board, and the queue can refill it.
    pub closed spec fn wf(&self) -> bool {
        &&& self.wf_base()
        &&& match self.piece {
            Some(p) => p.wf() && p.inside(self.board) && self.buffer_next_pieces@.len() >= 1,
            None => true,
        }
    }

    /// Equal to `other` but for the game-over flag.
    pub closed spec fn same_but_over(&self, other: App) -> bool {
        App { game_over: self.game_over, ..other } == *self
    }

    /// Equal to `other` but for the pause flag.
    pub closed spec fn same_but_pause(&self, other: App) -> bool {
        App { pause: self.pause, ..other } == *self
    }

    /// Equal to `other` but for the held direction and its repeat counters.
    pub closed spec fn same_but_side_input(&self, other: App) -> bool {
        App {
            side_move_to_perform: self.side_move_to_perform,
            frames_for_das: self.frames_for_das,
            side_movement_accumulator: self.side_movement_accumulator,
            ..other
        } == *self
    }

    /// Held direction, ticks it has been held, and the repeat accumulator.
    pub closed spec fn side_input(&self) -> (Option<SideMoves>, u32, i64) {
        (self.side_move_to_perform, self.frames_for_das, self.side_movement_accumulator)
    }

    /// Equal to `other` but for the active piece and the last action.
    pub closed spec fn same_but_piece_and_action(&self, other: App) -> bool {
        App { piece: self.piece, last_move: self.last_move, ..other } == *self
    }

    pub closed spec fn board_spec(&self) -> TetrisBoard {
        self.board
    }

    pub closed spec fn piece_spec(&self) -> Option<TetrisPieceWithPosition> {
        self.piece
    }

    /// A swap with the hold slot is allowed.
    pub closed spec fn can_hold(&self) -> bool {
        HoldTetrisPiece::can_swap_spec(self.hold_piece)
    }

    pub closed spec fn cells(&self) -> Seq<Seq<TetrisCell>> {
        self.board@
    }

    pub closed spec fn active(&self) -> Option<PieceState> {
        match self.piece {
            Some(p) => Some(p.state()),
            None => None,
        }
    }

    pub closed spec fn grounded(&self) -> bool {
        match self.piece {
            Some(p) => p.grounded(self.board),
            None => false,
        }
    }

    /// Gravity accumulated toward the next one-row fall, in `GRAVITY_UNIT`s.
    pub closed spec fn fall_progress(&self) -> u64 {
        self.down_movement_accumulator
    }

    /// The kick offset used by the last successful rotation, when not zero.
    pub closed spec fn kick_used(&self) -> Option<Kick> {
        self.last_kick
    }

    pub closed spec fn timing(&self) -> GameParams {
        self.config
    }

    pub closed spec fn lock_counter(&self) -> u32 {
        self.lock_timer
    }

    pub closed spec fn lock_delay(&self) -> u32 {
        self.config.lock_delay
    }

    pub closed spec fn gravity(&self) -> u64 {
        self.current_gravity
    }

    pub closed spec fn base_gravity(&self) -> u64 {
        self.config.gravity
    }

    pub closed spec fn soft_drop_factor(&self) -> u64 {
        self.config.soft_drop_factor
    }

    pub closed spec fn over(&self) -> bool {
        self.game_over
    }

    pub closed spec fn just_spawned(&self) -> bool {
        self.just_placed
    }

    pub closed spec fn paused(&self) -> bool {
        self.pause
    }

    pub closed spec fn scores(&self) -> ScoreState {
        self.score
    }

    pub closed spec fn last_action(&self) -> Moves {
        self.last_move
    }

    pub closed spec fn drawn(&self) -> Seq<PlayableTetrisPieceType> {
        self.bag.drawn()
    }

    pub closed spec fn queue(&self) -> Seq<PlayableTetrisPieceType> {
        self.buffer_next_pieces@
    }

    pub closed spec fn hold(&self) -> Option<(PlayableTetrisPieceType, TetrisPieceRotation, bool)> {
        match self.hold_piece {
            Some(h) => Some((h.piece.piece_type, h.piece.rotation, h.already_hold)),
            None => None,
        }
    }

    pub fn new(config: GameParams) -> (app: Self)
        requires
            config.valid(),
        ensures
            app.wf(),
            app.active() is None,
            app.hold() is None,
            !app.paused(),
            !app.over(),
            app.gravity() == config.gravity,
            app.base_gravity() == config.gravity,
            app.soft_drop_factor() == config.soft_drop_factor,
            app.lock_delay() == config.lock_delay,
            app.scores() == (ScoreState { last_score: None, back_to_back: 0, current_combo: 0 }),
            app.queue().len() == 0,
            app.drawn().len() == 0,
            forall|i: int, j: int|
                0 <= i < R && 0 <= j < C ==> #[trigger] app.cells()[i][j] == TetrisCell::EmptyCell,
    {
        let app = App {
            board: TetrisBoard::new(R, C),
            just_placed: false,
            pause: false,
            game_over: false,
            piece: None,
            hold_piece: None,
            bag: PieceBag::new(),
            down_movement_accumulator: 0,
            side_movement_accumulator: 0,
            current_gravity: config.gravity,
            buffer_next_pieces: VecDeque::with_capacity(QUEUE_LEN),
            last_move: Moves::FALL,
            score: ScoreState::new(),
            frames_for_das: 0,
            lock_timer: 0,
            last_kick: None,
            config,
            side_move_to_perform: None,
        };
        proof {
            assert forall|i: int, j: int| 0 <= i < R && 0 <= j < C implies #[trigger] app.cells()[i][j]
                == TetrisCell::EmptyCell by {
                assert(app.board@[i] == crate::board::empty_row(C as int));
            }
        }
        app
    }

    /// Fills the queue and spawns the first piece.
    pub fn start(&mut self)
        requires
            old(self).wf(),
        ensures
            final(self).wf(),
            final(self).active() is Some,
            final(self).queue().len() == old(self).queue().len() + QUEUE_LEN,
            final(self).drawn().len() == old(self).drawn().len() + QUEUE_LEN + 1,
            final(self).drawn().subrange(0, old(self).drawn().len() as int) == old(self).drawn(),
            final(self).queue() + seq![final(self).active().unwrap().0] == final(self).drawn().subrange(
                old(self).drawn().len() as int,
                final(self).drawn().len() as int,
            ).reverse() + old(self).queue(),
            final(self).active().unwrap().1 == TetrisPieceRotation::ZERO,
    {
        self.fill_buffer();
        let ghost d1 = self.bag.drawn();
        let ghost b1 = self.buffer_next_pieces@;
        self.next_block(None);
        proof {
            let n = old(self).bag.drawn().len() as int;
            let d = self.bag.drawn();
            let x = self.buffer_next_pieces@[0];
            assert(d.subrange(0, n) =~= d1.subrange(0, n));
            assert(d.subrange(n, d.len() as int) =~= d1.subrange(n, d1.len() as int).push(x));
            assert(d.subrange(n, d.len() as int).reverse() =~= seq![x] + d1.subrange(
                n,
                d1.len() as int,
            ).reverse());
            assert(self.buffer_next_pieces@ + seq![b1.last()] =~= seq![x] + b1);
        }
    }

    /// Seeds obstacles and queued kinds. The last pattern row goes to the
    /// bottom board row, the one before it just above, and so on; every byte
    /// other than a space fills its column with an obstacle cell. The kinds
    /// are queued after those already waiting, in the order given.
    pub fn initial_setup(&mut self, rows: &[&str], pieces: &[PlayableTetrisPieceType])
        requires
            old(self).wf(),
            rows@.len() <= R,
            forall|k: int| 0 <= k < rows@.len() ==> (#[trigger] rows@[k]).spec_bytes().len() <= C,
        ensures
            final(self).wf(),
            final(self).queue() == pieces@.reverse() + old(self).queue(),
            final(self).active() == old(self).active(),
            forall|i: int, j: int|
                0 <= i < R && 0 <= j < C ==> #[trigger] final(self).cells()[i][j] == if R
                    - rows@.len() <= i && j < rows@[i - (R - rows@.len())].spec_bytes().len()
                    && rows@[i - (R - rows@.len())].spec_bytes()[j] != 32u8 {
                    TetrisCell::FilledCell(TetrisPieceType::NotPlayable)
                } else {
                    old(self).cells()[i][j]
                },
    {
        let n = rows.len();
        let base = R - n as isize;
        let mut k: usize = 0;
        while k < n
            invariant
                self.wf(),
                self.piece == old(self).piece,
                self.buffer_next_pieces == old(self).buffer_next_pieces,
                n == rows@.len(),
                n <= R,
                base == R - n,
                0 <= k <= n,
                forall|m: int| 0 <= m < rows@.len() ==> (#[trigger] rows@[m]).spec_bytes().len() <= C,
                forall|i: int, j: int|
                    0 <= i < R && 0 <= j < C ==> #[trigger] self.board@[i][j] == if base <= i < base
                        + k && j < rows@[i - base].spec_bytes().len() && rows@[i - base].spec_bytes()[j]
                        != 32u8 {
                        TetrisCell::FilledCell(TetrisPieceType::NotPlayable)
                    } else {
                        old(self).board@[i][j]
                    },
            decreases n - k,
        {
            let bytes = rows[k].as_bytes();
            let row_index = base + k as isize;
            let ghost before = self.board@;
            let mut j: usize = 0;
            while j < bytes.len()
                invariant
                    self.wf(),
                    self.piece == old(self).piece,
                    self.buffer_next_pieces == old(self).buffer_next_pieces,
                    n == rows@.len(),
                    n <= R,
                    base == R - n,
                    0 <= k < n,
                    row_index == base + k,
                    bytes@ == rows@[k as int].spec_bytes(),
                    bytes@.len() <= C,
                    0 <= j <= bytes@.len(),
                    forall|i: int, c: int|
                        0 <= i < R && 0 <= c < C && i != row_index ==> #[trigger] self.board@[i][c]
                            == before[i][c],
                    forall|c: int|
                        0 <= c < C ==> #[trigger] self.board@[row_index as int][c] == if c < j
                            && bytes@[c] != 32u8 {
                            TetrisCell::FilledCell(TetrisPieceType::NotPlayable)
                        } else {
                            before[row_index as int][c]
                        },
                decreases bytes@.len() - j,
            {
                if bytes[j] != 32u8 {
                    self.board.set(row_index, j as isize, TetrisPieceType::NotPlayable);
                }
                j += 1;
            }
            proof {
                assert forall|i: int, c: int| 0 <= i < R && 0 <= c < C implies #[trigger] self.board@[i][c]
                    == if base <= i < base + k + 1 && c < rows@[i - base].spec_bytes().len()
                    && rows@[i - base].spec_bytes()[c] != 32u8 {
                    TetrisCell::FilledCell(TetrisPieceType::NotPlayable)
                } else {
                    old(self).board@[i][c]
                } by {
                    if i == row_index {
                        assert(self.board@[i][c] == if c < bytes@.len() && bytes@[c] != 32u8 {
                            TetrisCell::FilledCell(TetrisPieceType::NotPlayable)
                        } else {
                            before[i][c]
                        });
                    }
                }
            }
            k += 1;
        }
        let ghost seeded = self.board;
        let mut q: usize = 0;
        while q < pieces.len()
            invariant
                self.wf(),
                self.piece == old(self).piece,
                self.board == seeded,
                0 <= q <= pieces@.len(),
                self.buffer_next_pieces@ == pieces@.subrange(0, q as int).reverse() + old(self).buffer_next_pieces@,
            decreases pieces@.len() - q,
        {
            self.buffer_next_pieces.push_front(pieces[q]);
            q += 1;
            assert(self.buffer_next_pieces@ =~= pieces@.subrange(0, q as int).reverse() + old(self).buffer_next_pieces@);
        }
        assert(pieces@.subrange(0, pieces@.len() as int) =~= pieces@);
    }

    fn fill_buffer(&mut self)
        requires
            old(self).wf_base(),
        ensures
            final(self).wf_base(),
            final(self).buffer_next_pieces@.len() == old(self).buffer_next_pieces@.len() + QUEUE_LEN,
            final(self).bag.drawn().len() == old(self).bag.drawn().len() + QUEUE_LEN,
            final(self).bag.drawn().subrange(0, old(self).bag.drawn().len() as int) == old(self).bag.drawn(),
            final(self).buffer_next_pieces@ == final(self).bag.drawn().subrange(
                old(self).bag.drawn().len() as int,
                final(self).bag.drawn().len() as int,
            ).reverse() + old(self).buffer_next_pieces@,
            *final(self) == (App { bag: final(self).bag, buffer_next_pieces: final(self).buffer_next_pieces, ..*old(self) }),
    {
        let mut k: usize = 0;
        while k < QUEUE_LEN
            invariant
                self.wf_base(),
                0 <= k <= QUEUE_LEN,
                self.piece == old(self).piece,
                self.board == old(self).board,
                self.buffer_next_pieces@.len() == old(self).buffer_next_pieces@.len() + k,
                self.bag.drawn().len() == old(self).bag.drawn().len() + k,
                self.bag.drawn().subrange(0, old(self).bag.drawn().len() as int) == old(self).bag.drawn(),
                self.buffer_next_pieces@ == self.bag.drawn().subrange(
                    old(self).bag.drawn().len() as int,
                    self.bag.drawn().len() as int,
                ).reverse() + old(self).buffer_next_pieces@,
                *self == (App { bag: self.bag, buffer_next_pieces: self.buffer_next_pieces, ..*old(self) }),
            decreases QUEUE_LEN - k,
        {
            let ghost d0 = self.bag.drawn();
            let ghost b0 = self.buffer_next_pieces@;
            self.new_block_in_buffer();
            proof {
                let n = old(self).bag.drawn().len() as int;
                let d = self.bag.drawn();
                assert(d.subrange(0, n) =~= d0.subrange(0, n));
                assert(d.subrange(n, d.len() as int) =~= d0.subrange(n, d0.len() as int).push(
                    self.buffer_next_pieces@[0],
                ));
                assert(d.subrange(n, d.len() as int).reverse() =~= seq![self.buffer_next_pieces@[0]]
                    + d0.subrange(n, d0.len() as int).reverse());
                assert(self.buffer_next_pieces@ =~= seq![self.buffer_next_pieces@[0]] + b0);
                assert(seq![self.buffer_next_pieces@[0]] + b0 =~= seq![self.buffer_next_pieces@[0]]
                    + d0.subrange(n, d0.len() as int).reverse() + old(self).buffer_next_pieces@);
                assert(self.buffer_next_pieces@ =~= d.subrange(n, d.len() as int).reverse()
                    + old(self).buffer_next_pieces@);
            }
            k += 1;
        }
    }

    /// Draws one kind from the bag into the queue.
    fn new_block_in_buffer(&mut self)
        requires
            old(self).wf_base(),
        ensures
            final(self).wf_base(),
            final(self).buffer_next_pieces@.len() == old(self).buffer_next_pieces@.len() + 1,
            final(self).bag.drawn() == old(self).bag.drawn().push(final(self).buffer_next_pieces@[0]),
            final(self).buffer_next_pieces@.subrange(1, final(self).buffer_next_pieces@.len() as int)
                == old(self).buffer_next_pieces@,
            *final(self) == (App { bag: final(self).bag, buffer_next_pieces: final(self).buffer_next_pieces, ..*old(self) }),
    {
        let kind = self.bag.draw();
        self.buffer_next_pieces.push_front(kind);
        assert(self.buffer_next_pieces@.subrange(1, self.buffer_next_pieces@.len() as int)
            =~= old(self).buffer_next_pieces@);
    }

    fn build_piece_with_pos(piece: TetrisPiece) -> (p: TetrisPieceWithPosition)
        requires
            piece.wf(),
        ensures
            p.wf(),
            p.r == 0,
            p.c == spawn_col(),
            p.piece == piece,
            forall|b: TetrisBoard| b.rows == R && b.cols == C ==> #[trigger] p.inside(b),
    {
        TetrisPieceWithPosition::new(0, C / 2 - 1, piece)
    }

    /// Spawns the next piece (the forced kind, or the oldest queued one),
    /// refills the queue, restores base gravity and re-enables holding.
    fn next_block(&mut self, force_piece: Option<PlayableTetrisPieceType>)
        requires
            old(self).wf_base(),
            force_piece is Some || old(self).buffer_next_pieces@.len() >= 1,
        ensures
            final(self).wf(),
            final(self).just_placed,
            final(self).current_gravity == final(self).config.gravity,
            final(self).bag.drawn() == old(self).bag.drawn().push(final(self).buffer_next_pieces@[0]),
            final(self).buffer_next_pieces@ == seq![final(self).buffer_next_pieces@[0]] + if force_piece is None {
                old(self).buffer_next_pieces@.drop_last()
            } else {
                old(self).buffer_next_pieces@
            },
            force_piece is None ==> final(self).buffer_next_pieces@.len() == old(
                self,
            ).buffer_next_pieces@.len(),
            force_piece is Some ==> final(self).buffer_next_pieces@.len() == old(
                self,
            ).buffer_next_pieces@.len() + 1,
            match final(self).piece {
                Some(p) => p.r == 0 && p.c == spawn_col() && p.piece.rotation
                    == TetrisPieceRotation::ZERO && p.piece.piece_type == match force_piece {
                    Some(k) => k,
                    None => old(self).buffer_next_pieces@.last(),
                },
                None => false,
            },
            final(self).hold() == match old(self).hold() {
                Some(h) => Some((h.0, h.1, false)),
                None => None,
            },
            *final(self) == (App { piece: final(self).piece, bag: final(self).bag, buffer_next_pieces: final(self).buffer_next_pieces, current_gravity: final(self).current_gravity, just_placed: final(self).just_placed, hold_piece: final(self).hold_piece, ..*old(self) }),
    {
        let piece = match force_piece {
            None => TetrisPiece::new(self.buffer_next_pieces.pop_back().unwrap()),
            Some(p) => TetrisPiece::new(p),
        };
        assert(self.buffer_next_pieces@ =~= if force_piece is None {
            old(self).buffer_next_pieces@.drop_last()
        } else {
            old(self).buffer_next_pieces@
        });
        self.piece = Some(Self::build_piece_with_pos(piece));
        let ghost pre = self.buffer_next_pieces@;
        self.new_block_in_buffer();
        assert(self.buffer_next_pieces@ =~= seq![self.buffer_next_pieces@[0]] + pre);
        self.reset_drop();
        self.just_placed = true;
        match &mut self.hold_piece {
            Some(hold_piece) => hold_piece.reset_hold(),
            None => {},
        }
    }

    fn reset_drop(&mut self)
        ensures
            final(self).current_gravity == old(self).config.gravity,
            *final(self) == (App { current_gravity: final(self).current_gravity, ..*old(self) }),
    {
        self.current_gravity = self.config.gravity;
    }

    /// Stamps the active piece, collapses the completed rows (shifting from
    /// the top row) and records the lock in the score state.
    fn handle_finalize(&mut self)
        requires
            old(self).wf(),
            old(self).piece is Some,
        ensures
            final(self).wf_base(),
            ({
                let p = old(self).piece.unwrap();
                &&& final(self).board@ == locked_cells(
                    old(self).board@,
                    p.piece.piece_type,
                    p.piece.rotation,
                    p.r as int,
                    p.c as int,
                )
                &&& final(self).score == locked_score(
                    old(self).board@,
                    p.piece.piece_type,
                    p.piece.rotation,
                    p.r as int,
                    p.c as int,
                    old(self).last_move,
                    old(self).score,
                )
            }),
            *final(self) == (App { board: final(self).board, score: final(self).score, ..*old(self) }),
    {
        let ghost p = self.piece.unwrap();
        let ghost st = stamped(self.board@, p.piece.piece_type, p.piece.rotation, p.r as int, p.c as int);
        let (kind, row, col) = match &self.piece {
            Some(piece_with_position) => {
                piece_with_position.finalize_on(&mut self.board);
                (piece_with_position.piece.piece_type, piece_with_position.r, piece_with_position.c)
            },
            None => {
                return ;
            },
        };
        proof {
            lemma_piece_bounds(p, old(self).board);
        }
        let completed_rows_ranges = self.board.completed_rows();
        let completed_rows = self.board.count_complete_rows() as u32;
        assert(completed_rows_ranges@ =~= as_ranges(ranges_of(st, C as int)));
        let mut is_t_spin = false;
        if kind == PlayableTetrisPieceType::T && completed_rows > 0 && self.last_move == Moves::ROTATE {
            let occupied = self.blocked_corners(row + 1, col + 1);
            is_t_spin = occupied >= 3;
        }
        self.board.remove_ranges(completed_rows_ranges, Some(self.board.rows));
        let empty = self.board.is_empty();
        self.score.record_lock(completed_rows, is_t_spin, empty);
    }

    /// Number of the four diagonal neighbours of `(i, j)` that are off the
    /// board or filled.
    fn blocked_corners(&self, i: isize, j: isize) -> (n: u32)
        requires
            self.board.wf(),
            self.board.rows == R,
            self.board.cols == C,
            -4 < i < R + 4,
            -4 < j < C + 4,
        ensures
            n == blocked_count(self.board@, i as int, j as int),
    {
        let mut occupied: u32 = 0;
        if self.corner_is_blocked(i - 1, j - 1) {
            occupied += 1;
        }
        if self.corner_is_blocked(i - 1, j + 1) {
            occupied += 1;
        }
        if self.corner_is_blocked(i + 1, j - 1) {
            occupied += 1;
        }
        if self.corner_is_blocked(i + 1, j + 1) {
            occupied += 1;
        }
        occupied
    }

    fn corner_is_blocked(&self, ei: isize, ej: isize) -> (b: bool)
        requires
            self.board.wf(),
            self.board.rows == R,
            self.board.cols == C,
        ensures
            b == corner_blocked(self.board@, ei as int, ej as int),
    {
        ei < 0 || ei >= R || ej < 0 || ej >= C || self.board.is_set(ei, ej)
    }

    pub fn is_paused(&self) -> (p: bool)
        ensures
            p == self.paused(),
    {
        self.pause
    }

    pub fn is_game_over(&self) -> (o: bool)
        ensures
            o == self.over(),
    {
        self.game_over
    }

    /// One simulation tick, unless paused: paused time is not counted.
    pub fn update(&mut self) -> (res: TetrisUpdateResult)
        requires
            old(self).wf(),
        ensures
            final(self).wf(),
            old(self).paused() && !old(self).over() ==> res == TetrisUpdateResult::Continue
                && *final(self) == *old(self),
            !old(self).paused() && !old(self).over() ==> tick(*old(self), *final(self), res),
            old(self).over() ==> res == TetrisUpdateResult::GameOver && *final(self) == *old(self),
    {
        if self.game_over {
            TetrisUpdateResult::GameOver
        } else if !self.pause {
            self.advance_frame()
        } else {
            TetrisUpdateResult::Continue
        }
    }

    /// Advances gravity, lateral repeat and lock delay by one tick.
    pub fn advance_frame(&mut self) -> (res: TetrisUpdateResult)
        requires
            old(self).wf(),
        ensures
            final(self).wf(),
            tick(*old(self), *final(self), res),
    {
        if self.game_over {
            return TetrisUpdateResult::GameOver;
        }
        let grounded = match &self.piece {
            Some(piece) => piece.collides_on_next(&self.board),
            None => {
                return TetrisUpdateResult::Continue;
            },
        };
        if self.just_placed && grounded {
            self.game_over = true;
            return TetrisUpdateResult::GameOver;
        }
        self.just_placed = false;
        let mut put_next_block = false;
        if grounded {
            if self.lock_timer == self.config.lock_delay {
                self.handle_finalize();
                self.next_block(None);
                self.down_movement_accumulator = 0;
                put_next_block = true;
            } else {
                self.lock_timer += 1;
            }
        } else {
            self.lock_timer = 0;
        }
        if self.apply_side_move() {
            self.lock_timer = 0;
        }
        if !put_next_block && !grounded {
            self.apply_gravity();
        }
        TetrisUpdateResult::Continue
    }

    /// Lateral movement of one tick: a single move on the first tick a
    /// direction is held, then, once the auto-shift delay is reached, one
    /// move per auto-repeat period (several per tick when the period is
    /// below one tick). Returns whether the piece moved.
    fn apply_side_move(&mut self) -> (moved: bool)
        requires
            old(self).wf(),
            old(self).piece is Some,
        ensures
            final(self).wf(),
            final(self).piece is Some,
            final(self).piece.unwrap().piece == old(self).piece.unwrap().piece,
            final(self).piece.unwrap().r == old(self).piece.unwrap().r,
            moved == (final(self).piece.unwrap().c != old(self).piece.unwrap().c),
            old(self).side_move_to_perform is None ==> !moved && final(self).side_movement_accumulator
                == 0,
            moved ==> final(self).last_move == Moves::SIDE,
            !moved ==> final(self).last_move == old(self).last_move,
            (final(self).piece.unwrap().c as int, final(self).frames_for_das, final(self).side_movement_accumulator as int)
                == lateral_step(
                old(self).piece.unwrap().piece,
                old(self).piece.unwrap().r as int,
                old(self).piece.unwrap().c as int,
                old(self).board,
                old(self).side_move_to_perform,
                old(self).frames_for_das,
                old(self).side_movement_accumulator,
                old(self).config.das,
                old(self).config.arr,
            ),
            *final(self) == (App { piece: final(self).piece, frames_for_das: final(self).frames_for_das, side_movement_accumulator: final(self).side_movement_accumulator, last_move: final(self).last_move, ..*old(self) }),
    {
        let can_das = self.frames_for_das >= self.config.das;
        let can_single_move = !can_das && self.frames_for_das == 0;
        let sign: i64 = match self.side_move_to_perform {
            Some(SideMoves::LEFT) => -1,
            Some(SideMoves::RIGHT) => 1,
            None => 0,
        };
        let mut moved = false;
        let ghost c0 = self.piece.unwrap().c;
        if sign == 0 {
            self.side_movement_accumulator = 0;
        } else {
            if self.frames_for_das < u32::MAX {
                self.frames_for_das += 1;
            }
            if can_single_move {
                let ghost before = self.piece.unwrap();
                assert(before == TetrisPieceWithPosition {
                    r: before.r as int as isize,
                    c: before.c as int as isize,
                    piece: before.piece,
                });
                if self.side_move_signed(sign > 0) {
                    moved = true;
                }
                proof {
                    let right = sign > 0;
                    let next_col = if right {
                        before.c + 1
                    } else {
                        before.c - 1
                    };
                    assert(slide_col(before.piece, before.r as int, next_col, self.board, right, 0)
                        == next_col);
                    assert(slide_col(before.piece, before.r as int, before.c as int, self.board, right, 1)
                        == self.piece.unwrap().c);
                }
            } else if can_das {
                let acc: i64 = if sign > 0 {
                    self.side_movement_accumulator + FRAME_UNIT as i64
                } else {
                    self.side_movement_accumulator - FRAME_UNIT as i64
                };
                let positive = acc >= 0;
                let mut abs: u64 = if positive {
                    acc as u64
                } else {
                    (-acc) as u64
                };
                let ghost m = abs;
                while abs >= self.config.arr
                    invariant
                        self.wf(),
                        self.piece is Some,
                        self.piece.unwrap().piece == old(self).piece.unwrap().piece,
                        self.piece.unwrap().r == old(self).piece.unwrap().r,
                        c0 == old(self).piece.unwrap().c,
                        moved == (self.piece.unwrap().c != c0),
                        moved ==> self.last_move == Moves::SIDE,
                        !moved ==> self.last_move == old(self).last_move,
                        self.frames_for_das == if old(self).frames_for_das < u32::MAX {
                            (old(self).frames_for_das + 1) as u32
                        } else {
                            old(self).frames_for_das
                        },
                        positive ==> self.piece.unwrap().c >= c0,
                        !positive ==> self.piece.unwrap().c <= c0,
                        slide_col(
                            self.piece.unwrap().piece,
                            self.piece.unwrap().r as int,
                            self.piece.unwrap().c as int,
                            self.board,
                            positive,
                            repeat_count(abs as int, self.config.arr as int),
                        ) == slide_col(
                            self.piece.unwrap().piece,
                            self.piece.unwrap().r as int,
                            c0 as int,
                            self.board,
                            positive,
                            repeat_count(m as int, self.config.arr as int),
                        ),
                        repeat_rest(abs as int, self.config.arr as int) == repeat_rest(m as int, self.config.arr as int),
                        abs <= MAX_PARAM + FRAME_UNIT,
                        self.board == old(self).board,
                        self.lock_timer == old(self).lock_timer,
                        self.config == old(self).config,
                        self.current_gravity == old(self).current_gravity,
                        self.down_movement_accumulator == old(self).down_movement_accumulator,
                        self.score == old(self).score,
                        self.just_placed == old(self).just_placed,
                        self.game_over == old(self).game_over,
                        self.pause == old(self).pause,
                        self.hold_piece == old(self).hold_piece,
                        self.buffer_next_pieces == old(self).buffer_next_pieces,
                        self.bag == old(self).bag,
                        *self == (App {
                            piece: self.piece,
                            frames_for_das: self.frames_for_das,
                            side_movement_accumulator: self.side_movement_accumulator,
                            last_move: self.last_move,
                            ..*old(self)
                        }),
                    decreases abs,
                {
                    let ghost before = self.piece.unwrap();
                    assert(repeat_count(abs as int, self.config.arr as int) == 1 + repeat_count(
                        abs - self.config.arr,
                        self.config.arr as int,
                    ));
                    assert(repeat_rest(abs as int, self.config.arr as int) == repeat_rest(
                        abs - self.config.arr,
                        self.config.arr as int,
                    ));
                    assert(before == TetrisPieceWithPosition {
                        r: before.r as int as isize,
                        c: before.c as int as isize,
                        piece: before.piece,
                    });
                    if self.side_move_signed(positive) {
                        moved = true;
                    }
                    abs -= self.config.arr;
                }
                assert(repeat_count(abs as int, self.config.arr as int) == 0);
                assert(repeat_rest(abs as int, self.config.arr as int) == abs);
                self.side_movement_accumulator = if positive {
                    abs as i64
                } else {
                    -(abs as i64)
                };
                proof {
                    let old_acc = old(self).side_movement_accumulator;
                    let v = old_acc + if sign > 0 {
                        FRAME_UNIT as int
                    } else {
                        -(FRAME_UNIT as int)
                    };
                    assert(v == acc);
                    assert(positive == (sign > 0));
                    assert(m as int == (if sign > 0 {
                        old_acc as int
                    } else {
                        -old_acc
                    }) + FRAME_UNIT);
                    assert(self.piece.unwrap().c == slide_col(
                        old(self).piece.unwrap().piece,
                        old(self).piece.unwrap().r as int,
                        old(self).piece.unwrap().c as int,
                        old(self).board,
                        positive,
                        repeat_count(m as int, self.config.arr as int),
                    ));
                }
            }
        }
        moved
    }

    fn side_move_signed(&mut self, right: bool) -> (moved: bool)
        requires
            old(self).wf(),
            old(self).piece is Some,
        ensures
            final(self).wf(),
            final(self).piece is Some,
            moved ==> final(self).last_move == Moves::SIDE,
            !moved ==> final(self).last_move == old(self).last_move,
            moved == if right {
                old(self).piece.unwrap().can_move_right(old(self).board)
            } else {
                old(self).piece.unwrap().can_move_left(old(self).board)
            },
            final(self).piece.unwrap().piece == old(self).piece.unwrap().piece,
            final(self).piece.unwrap().r == old(self).piece.unwrap().r,
            final(self).piece.unwrap().c == old(self).piece.unwrap().c + if !moved {
                0
            } else if right {
                1
            } else {
                -1
            },
            *final(self) == (App { piece: final(self).piece, last_move: final(self).last_move, ..*old(self) }),
    {
        if right {
            self.shift_right()
        } else {
            self.shift_left()
        }
    }

    /// Adds one tick of gravity and moves the piece down one row for each
    /// whole cell accumulated, as long as it is not grounded.
    fn apply_gravity(&mut self)
        requires
            old(self).wf(),
            old(self).piece is Some,
        ensures
            final(self).wf(),
            final(self).piece is Some,
            final(self).piece.unwrap().piece == old(self).piece.unwrap().piece,
            final(self).piece.unwrap().c == old(self).piece.unwrap().c,
            final(self).piece.unwrap().r >= old(self).piece.unwrap().r,
            final(self).piece.unwrap().r != old(self).piece.unwrap().r ==> final(self).last_move
                == Moves::FALL,
            final(self).piece.unwrap().r == old(self).piece.unwrap().r ==> final(self).last_move
                == old(self).last_move,
            final(self).piece.unwrap().r == fall_row(
                old(self).piece.unwrap().piece,
                old(self).piece.unwrap().c as int,
                old(self).board,
                old(self).piece.unwrap().r as int,
                ((old(self).down_movement_accumulator + old(self).current_gravity) / (
                GRAVITY_UNIT as int)) as nat,
            ),
            final(self).down_movement_accumulator as int == (old(self).down_movement_accumulator
                + old(self).current_gravity) % (GRAVITY_UNIT as int),
            *final(self) == (App { piece: final(self).piece, down_movement_accumulator: final(self).down_movement_accumulator, last_move: final(self).last_move, ..*old(self) }),
    {
        proof {
            assert(self.config.gravity * self.config.soft_drop_factor <= MAX_PARAM * MAX_PARAM)
                by (nonlinear_arith)
                requires
                    self.config.gravity <= MAX_PARAM,
                    self.config.soft_drop_factor <= MAX_PARAM,
            ;
        }
        let total = self.down_movement_accumulator + self.current_gravity;
        self.down_movement_accumulator = total;
        while self.down_movement_accumulator >= GRAVITY_UNIT
            invariant
                self.board.wf(),
                self.board.rows == R,
                self.board.cols == C,
                self.piece is Some,
                self.piece.unwrap().wf(),
                self.piece.unwrap().inside(self.board),
                self.piece.unwrap().piece == old(self).piece.unwrap().piece,
                self.piece.unwrap().c == old(self).piece.unwrap().c,
                self.piece.unwrap().r >= old(self).piece.unwrap().r,
                self.piece.unwrap().r != old(self).piece.unwrap().r ==> self.last_move == Moves::FALL,
                self.piece.unwrap().r == old(self).piece.unwrap().r ==> self.last_move
                    == old(self).last_move,
                fall_row(
                    self.piece.unwrap().piece,
                    self.piece.unwrap().c as int,
                    self.board,
                    self.piece.unwrap().r as int,
                    (self.down_movement_accumulator / GRAVITY_UNIT) as nat,
                ) == fall_row(
                    old(self).piece.unwrap().piece,
                    old(self).piece.unwrap().c as int,
                    old(self).board,
                    old(self).piece.unwrap().r as int,
                    ((old(self).down_movement_accumulator + old(self).current_gravity) / (
                    GRAVITY_UNIT as int)) as nat,
                ),
                self.down_movement_accumulator <= total,
                (self.down_movement_accumulator as int) % (GRAVITY_UNIT as int) == (total as int) % (
                GRAVITY_UNIT as int),
                self.board == old(self).board,
                self.lock_timer == old(self).lock_timer,
                self.config == old(self).config,
                self.current_gravity == old(self).current_gravity,
                self.hold_piece == old(self).hold_piece,
                self.bag == old(self).bag,
                self.buffer_next_pieces == old(self).buffer_next_pieces,
                self.side_movement_accumulator == old(self).side_movement_accumulator,
                *self == (App {
                    piece: self.piece,
                    down_movement_accumulator: self.down_movement_accumulator,
                    last_move: self.last_move,
                    ..*old(self)
                }),
            decreases self.down_movement_accumulator,
        {
            match &mut self.piece {
                Some(piece) => {
                    if !piece.collides_on_next(&self.board) {
                        proof {
                            lemma_piece_bounds(*piece, self.board);
                        }
                        piece.move_down();
                        self.last_move = Moves::FALL;
                    }
                },
                None => {},
            }
            assert((self.down_movement_accumulator as int - GRAVITY_UNIT as int) / (GRAVITY_UNIT as int)
                == (self.down_movement_accumulator as int) / (GRAVITY_UNIT as int) - 1);
            self.down_movement_accumulator = self.down_movement_accumulator - GRAVITY_UNIT;
        }
    }

    pub fn toggle_pause(&mut self)
        ensures
            final(self).paused() == !old(self).paused(),
            final(self).same_but_pause(*old(self)),
    {
        if self.is_paused() {
            self.resume();
        } else {
            self.pause();
        }
    }

    pub fn pause(&mut self)
        ensures
            final(self).paused(),
            final(self).same_but_pause(*old(self)),
    {
        self.pause = true;
    }

    pub fn resume(&mut self)
        ensures
            !final(self).paused(),
            final(self).same_but_pause(*old(self)),
    {
        self.pause = false;
    }

    pub fn move_left(&mut self) -> (moved: bool)
        requires
            old(self).wf(),
        ensures
            final(self).wf(),
            moved == match old(self).piece_spec() {
                Some(p) => p.can_move_left(old(self).board_spec()),
                None => false,
            },
            moved ==> final(self).active() == Some(
                (
                    old(self).active().unwrap().0,
                    old(self).active().unwrap().1,
                    old(self).active().unwrap().2,
                    old(self).active().unwrap().3 - 1,
                ),
            ) && final(self).last_action() == Moves::SIDE,
            !moved ==> *final(self) == *old(self),
            final(self).same_but_piece_and_action(*old(self)),
    {
        self.shift_left()
    }

    fn shift_left(&mut self) -> (moved: bool)
        requires
            old(self).wf(),
        ensures
            final(self).wf(),
            moved == match old(self).piece {
                Some(p) => p.can_move_left(old(self).board),
                None => false,
            },
            moved ==> final(self).piece is Some && final(self).piece.unwrap().c == old(self).piece.unwrap().c
                - 1 && final(self).piece.unwrap().r == old(self).piece.unwrap().r
                && final(self).piece.unwrap().piece == old(self).piece.unwrap().piece
                && final(self).last_move == Moves::SIDE,
            !moved ==> final(self).piece == old(self).piece && final(self).last_move == old(self).last_move,
            *final(self) == (App { piece: final(self).piece, last_move: final(self).last_move, ..*old(self) }),
    {
        match &mut self.piece {
            Some(piece) => {
                let ghost before = *piece;
                if piece.try_move_left(&self.board) {
                    proof {
                        lemma_piece_bounds(before, self.board);
                    }
                    self.last_move = Moves::SIDE;
                    true
                } else {
                    false
                }
            },
            None => false,
        }
    }

    pub fn move_right(&mut self) -> (moved: bool)
        requires
            old(self).wf(),
        ensures
            final(self).wf(),
            moved == match old(self).piece_spec() {
                Some(p) => p.can_move_right(old(self).board_spec()),
                None => false,
            },
            moved ==> final(self).active() == Some(
                (
                    old(self).active().unwrap().0,
                    old(self).active().unwrap().1,
                    old(self).active().unwrap().2,
                    old(self).active().unwrap().3 + 1,
                ),
            ) && final(self).last_action() == Moves::SIDE,
            !moved ==> *final(self) == *old(self),
            final(self).same_but_piece_and_action(*old(self)),
    {
        self.shift_right()
    }

    fn shift_right(&mut self) -> (moved: bool)
        requires
            old(self).wf(),
        ensures
            final(self).wf(),
            moved == match old(self).piece {
                Some(p) => p.can_move_right(old(self).board),
                None => false,
            },
            moved ==> final(self).piece is Some && final(self).piece.unwrap().c == old(self).piece.unwrap().c
                + 1 && final(self).piece.unwrap().r == old(self).piece.unwrap().r
                && final(self).piece.unwrap().piece == old(self).piece.unwrap().piece
                && final(self).last_move == Moves::SIDE,
            !moved ==> final(self).piece == old(self).piece && final(self).last_move == old(self).last_move,
            *final(self) == (App { piece: final(self).piece, last_move: final(self).last_move, ..*old(self) }),
    {
        match &mut self.piece {
            Some(piece) => {
                let ghost before = *piece;
                if piece.try_move_right(&self.board) {
                    proof {
                        lemma_piece_bounds(before, self.board);
                    }
                    self.last_move = Moves::SIDE;
                    true
                } else {
                    false
                }
            },
            None => false,
        }
    }

    /// Holding a direction; switching direction restarts the auto-shift.
    pub fn left_key_pressed(&mut self)
        ensures
            final(self).side_input().0 == Some(SideMoves::LEFT),
            old(self).side_input().0 != Some(SideMoves::LEFT) ==> final(self).side_input().1 == 0
                && final(self).side_input().2 == 0,
            old(self).side_input().0 == Some(SideMoves::LEFT) ==> *final(self) == *old(self),
            final(self).same_but_side_input(*old(self)),
    {
        match self.side_move_to_perform {
            Some(SideMoves::LEFT) => {},
            _ => {
                self.frames_for_das = 0;
                self.side_movement_accumulator = 0;
            },
        }
        self.side_move_to_perform = Some(SideMoves::LEFT);
    }

    pub fn right_key_pressed(&mut self)
        ensures
            final(self).side_input().0 == Some(SideMoves::RIGHT),
            old(self).side_input().0 != Some(SideMoves::RIGHT) ==> final(self).side_input().1 == 0
                && final(self).side_input().2 == 0,
            old(self).side_input().0 == Some(SideMoves::RIGHT) ==> *final(self) == *old(self),
            final(self).same_but_side_input(*old(self)),
    {
        match self.side_move_to_perform {
            Some(SideMoves::RIGHT) => {},
            _ => {
                self.frames_for_das = 0;
                self.side_movement_accumulator = 0;
            },
        }
        self.side_move_to_perform = Some(SideMoves::RIGHT);
    }

    pub fn left_key_released(&mut self)
        ensures
            final(self).side_input() == (None::<SideMoves>, 0u32, 0i64),
            final(self).same_but_side_input(*old(self)),
    {
        self.reset_side_key_pressed();
    }

    pub fn right_key_released(&mut self)
        ensures
            final(self).side_input() == (None::<SideMoves>, 0u32, 0i64),
            final(self).same_but_side_input(*old(self)),
    {
        self.reset_side_key_pressed();
    }

    fn reset_side_key_pressed(&mut self)
        ensures
            final(self).side_input() == (None::<SideMoves>, 0u32, 0i64),
            final(self).same_but_side_input(*old(self)),
    {
        self.side_move_to_perform = None;
        self.frames_for_das = 0;
        self.side_movement_accumulator = 0;
    }

    /// Rotates the active piece (clockwise when `next`) with kicks; a
    /// rotation that no kick makes fit leaves the piece as it was.
    pub fn rot_pressed(&mut self, next: bool)
        requires
            old(self).wf(),
        ensures
            final(self).wf(),
            final(self).active() == match old(self).active() {
                Some(s) => Some(rotation_step(s, old(self).board_spec(), next)),
                None => None,
            },
            old(self).active() is Some ==> match first_fit(
                old(self).active().unwrap().0,
                if next {
                    next_rotation_spec(old(self).active().unwrap().1)
                } else {
                    prev_rotation_spec(old(self).active().unwrap().1)
                },
                old(self).active().unwrap().2,
                old(self).active().unwrap().3,
                old(self).board_spec(),
                kick_table(
                    old(self).active().unwrap().0,
                    old(self).active().unwrap().1,
                    if next {
                        next_rotation_spec(old(self).active().unwrap().1)
                    } else {
                        prev_rotation_spec(old(self).active().unwrap().1)
                    },
                ),
            ) {
                Some(k) => final(self).last_action() == Moves::ROTATE && final(self).kick_used() == if k.0
                    != 0 || k.1 != 0 {
                    Some(k)
                } else {
                    None
                },
                None => final(self).last_action() == old(self).last_action() && final(self).kick_used()
                    == old(self).kick_used(),
            },
            final(self).board_spec() == old(self).board_spec(),
            final(self).lock_counter() == old(self).lock_counter(),
            final(self).gravity() == old(self).gravity(),
            final(self).scores() == old(self).scores(),
            final(self).just_spawned() == old(self).just_spawned(),
            final(self).over() == old(self).over(),
    {
        match &mut self.piece {
            None => {},
            Some(piece_with_pos) => {
                let ghost before = *piece_with_pos;
                proof {
                    lemma_piece_bounds(before, self.board);
                    lemma_rotation_inverse(before.piece.rotation);
                }
                let prev_rot = piece_with_pos.piece.rotation;
                let piece_ref = piece_with_pos.tetris_piece_mut();
                if next {
                    piece_ref.rotate_piece();
                } else {
                    piece_ref.rotate_piece_prev();
                }
                let to = piece_with_pos.piece.rotation;
                match piece_with_pos.can_rotate(prev_rot, &self.board) {
                    Some(kick) => {
                        proof {
                            let kicks = kick_table(before.piece.piece_type, prev_rot, to);
                            lemma_first_fit(
                                before.piece.piece_type,
                                to,
                                before.r as int,
                                before.c as int,
                                self.board,
                                kicks,
                            );
                            lemma_kick_table_shape(before.piece.piece_type, prev_rot, to);
                            let m = choose|m: int| 0 <= m < kicks.len() && kicks[m] == kick;
                            assert(-2 <= kicks[m].0 <= 2 && -2 <= kicks[m].1 <= 2);
                        }
                        piece_with_pos.kick_by(kick);
                        proof {
                            let p = *piece_with_pos;
                            assert forall|i: int, j: int| #[trigger] p.piece.occupied(i, j) implies self.board.in_bounds(
                                p.r + i,
                                p.c + j,
                            ) by {
                                if !self.board.in_bounds(p.r + i, p.c + j) {
                                    assert(shape_filled(p.piece.piece_type, to, i, j));
                                }
                            }
                            assert(p.inside(self.board));
                        }
                        self.last_move = Moves::ROTATE;
                        self.last_kick = if is_not_empty(kick) {
                            Some(kick)
                        } else {
                            None
                        };
                    },
                    None => {
                        let piece_ref = piece_with_pos.tetris_piece_mut();
                        if !next {
                            piece_ref.rotate_piece();
                        } else {
                            piece_ref.rotate_piece_prev();
                        }
                        proof {
                            let p = *piece_with_pos;
                            assert(p.piece.rotation == before.piece.rotation);
                            assert forall|i: int, j: int| #[trigger] p.piece.occupied(i, j) implies self.board.in_bounds(
                                p.r + i,
                                p.c + j,
                            ) by {
                                assert(before.piece.occupied(i, j));
                            }
                        }
                    },
                }
            },
        }
    }

    pub fn next_rot_pressed(&mut self)
        requires
            old(self).wf(),
        ensures
            final(self).wf(),
            final(self).active() == match old(self).active() {
                Some(s) => Some(rotation_step(s, old(self).board_spec(), true)),
                None => None,
            },
    {
        self.rot_pressed(true);
    }

    pub fn prev_rot_pressed(&mut self)
        requires
            old(self).wf(),
        ensures
            final(self).wf(),
            final(self).active() == match old(self).active() {
                Some(s) => Some(rotation_step(s, old(self).board_spec(), false)),
                None => None,
            },
    {
        self.rot_pressed(false);
    }

    /// Drops the piece until grounded and locks it at once.
    pub fn hard_drop_key_pressed(&mut self)
        requires
            old(self).wf(),
        ensures
            final(self).wf(),
            old(self).active() is None ==> *final(self) == *old(self),
            old(self).active() is Some ==> final(self).active() is Some && final(self).just_spawned()
                && final(self).last_action() == Moves::UP,
            old(self).active() is Some ==> {
                &&& final(self).active() == Some(
                    (old(self).queue().last(), TetrisPieceRotation::ZERO, 0int, spawn_col() as int),
                )
                &&& final(self).queue() == seq![final(self).queue()[0]] + old(self).queue().drop_last()
                &&& final(self).drawn() == old(self).drawn().push(final(self).queue()[0])
                &&& final(self).hold() == match old(self).hold() {
                    Some(h) => Some((h.0, h.1, false)),
                    None => None,
                }
            },
            old(self).active() is Some ==> exists|s: int| #[trigger] hard_drop_outcome(*old(self), *final(self), s),
    {
        match &mut self.piece {
            None => {
                return ;
            },
            Some(piece) => {
                while !piece.collides_on_next(&self.board)
                    invariant
                        piece.wf(),
                        piece.inside(self.board),
                        self.board.wf(),
                        self.board.rows == R,
                        self.board.cols == C,
                        piece.piece == old(self).piece.unwrap().piece,
                        piece.c == old(self).piece.unwrap().c,
                        old(self).piece.unwrap().r <= piece.r,
                        forall|t: int|
                            old(self).piece.unwrap().r <= t < piece.r ==> !#[trigger] piece.piece.collides_on_next_spec(
                                t,
                                piece.c as int,
                                self.board,
                            ),
                    decreases R - piece.r,
                {
                    proof {
                        lemma_piece_bounds(*piece, self.board);
                        lemma_shape_nonempty(piece.piece.piece_type, piece.piece.rotation);
                    }
                    piece.move_down();
                }
                proof {
                    lemma_piece_bounds(*piece, self.board);
                }
            },
        }
        let ghost landed = self.piece.unwrap().r as int;
        self.handle_finalize();
        self.next_block(None);
        self.last_move = Moves::UP;
        proof {
            assert(hard_drop_outcome(*old(self), *self, landed));
        }
    }

    /// Parks the active piece in the hold slot (back in its spawn rotation)
    /// and takes out the held one, or the next queued piece when the slot
    /// was empty; allowed once per spawned piece.
    pub fn hold_key_pressed(&mut self)
        requires
            old(self).wf(),
        ensures
            final(self).wf(),
            !old(self).can_hold() || old(self).active() is None ==> *final(self) == *old(self),
            old(self).can_hold() && old(self).active() is Some ==> {
                &&& final(self).hold() == Some(
                    (old(self).active().unwrap().0, TetrisPieceRotation::ZERO, true),
                )
                &&& final(self).active() is Some
                &&& old(self).hold() is Some ==> final(self).queue() == old(self).queue()
                    && final(self).drawn() == old(self).drawn()
                &&& old(self).hold() is None ==> final(self).queue() == seq![final(self).queue()[0]]
                    + old(self).queue().drop_last() && final(self).drawn() == old(self).drawn().push(
                    final(self).queue()[0],
                )
                &&& old(self).hold() is None ==> final(self).active() == Some(
                    (old(self).queue().last(), TetrisPieceRotation::ZERO, 0int, spawn_col() as int),
                )
                &&& old(self).hold() is Some ==> final(self).active() == Some(
                    (
                        old(self).hold().unwrap().0,
                        old(self).hold().unwrap().1,
                        0int,
                        spawn_col() as int,
                    ),
                )
            },
    {
        if HoldTetrisPiece::can_swap(&self.hold_piece) {
            let p = self.piece.take();
            match p {
                None => {
                    self.piece = p;
                },
                Some(p) => {
                    let hp = self.hold_piece.take();
                    self.hold_piece = Some(HoldTetrisPiece::new(p.tetris_piece()));
                    match hp {
                        Some(hp) => {
                            self.piece = Some(Self::build_piece_with_pos(hp.piece));
                        },
                        None => {
                            self.next_block(None);
                        },
                    }
                    match &mut self.hold_piece {
                        Some(h) => h.set_hold(),
                        None => {},
                    }
                },
            }
        }
    }

    /// Soft drop: gravity becomes the base gravity times the soft-drop factor.
    pub fn soft_drop_key_pressed(&mut self)
        requires
            old(self).wf(),
        ensures
            final(self).wf(),
            soft_drop_pressed(*old(self), *final(self)),
            final(self).last_action() == Moves::DOWN,
            final(self).active() == old(self).active(),
    {
        proof {
            assert(self.config.gravity * self.config.soft_drop_factor <= MAX_PARAM * MAX_PARAM)
                by (nonlinear_arith)
                requires
                    self.config.gravity <= MAX_PARAM,
                    self.config.soft_drop_factor <= MAX_PARAM,
            ;
        }
        self.current_gravity = self.config.gravity * self.config.soft_drop_factor;
        self.last_move = Moves::DOWN;
    }

    /// Releasing soft drop restores the base gravity.
    pub fn soft_drop_key_released(&mut self)
        requires
            old(self).wf(),
        ensures
            final(self).wf(),
            soft_drop_released(*old(self), *final(self)),
            final(self).active() == old(self).active(),
    {
        self.reset_drop();
    }

    /// Removes one row, shifting every row above it down by one.
    pub fn remove_line(&mut self, line: usize)
        requires
            old(self).wf(),
        ensures
            final(self).wf(),
            line < R ==> final(self).cells() == crate::board::removed_rows(
                old(self).cells(),
                C as int,
                line as int,
                line - 1,
                Some(R),
            ),
            line >= R ==> *final(self) == *old(self),
    {
        if line < R as usize {
            let l = line as isize;
            self.board.remove_rows(l, l - 1, Some(R));
        }
    }

    /// Replaces the active piece by a fresh piece of the given kind.
    pub fn set_current(&mut self, p: PlayableTetrisPieceType)
        requires
            old(self).wf(),
        ensures
            final(self).wf(),
            final(self).active() == Some((p, TetrisPieceRotation::ZERO, 0int, spawn_col() as int)),
            final(self).just_spawned(),
            final(self).queue() == seq![final(self).queue()[0]] + old(self).queue(),
            final(self).drawn() == old(self).drawn().push(final(self).queue()[0]),
    {
        self.next_block(Some(p));
    }

    /// Row at which the active piece would land, for the ghost preview;
    /// none while paused.
    pub fn get_shadow_row_index(&self, piece_info: &TetrisPieceWithPosition) -> (r: Option<isize>)
        requires
            self.wf(),
            piece_info.wf(),
            piece_info.inside(self.board_spec()),
        ensures
            self.paused() ==> r is None,
            !self.paused() ==> r is Some && r.unwrap() >= piece_info.r && piece_info.piece.collides_on_next_spec(
                r.unwrap() as int,
                piece_info.c as int,
                self.board_spec(),
            ) && forall|s: int|
                piece_info.r <= s < r.unwrap() ==> !#[trigger] piece_info.piece.collides_on_next_spec(
                    s,
                    piece_info.c as int,
                    self.board_spec(),
                ),
    {
        if self.pause {
            None
        } else {
            proof {
                lemma_piece_bounds(*piece_info, self.board);
                lemma_shape_nonempty(piece_info.piece.piece_type, piece_info.piece.rotation);
            }
            let mut shadow_row = piece_info.row();
            while !piece_info.collides_on_next_with_row(shadow_row, &self.board)
                invariant
                    self.wf(),
                    piece_info.wf(),
                    piece_info.inside(self.board),
                    piece_info.r <= shadow_row < R,
                    -4 < piece_info.r < R,
                    forall|i: int, j: int| #[trigger] piece_info.piece.occupied(i, j) ==> 0 <= i < 4 && 0 <= j < 4 && shadow_row + i <= R - 1,
                    exists|i: int, j: int| #[trigger] shape_filled(piece_info.piece.piece_type, piece_info.piece.rotation, i, j),
                    forall|s: int|
                        piece_info.r <= s < shadow_row ==> !#[trigger] piece_info.piece.collides_on_next_spec(
                            s,
                            piece_info.c as int,
                            self.board,
                        ),
                decreases R - shadow_row,
            {
                proof {
                    let (i, j) = choose|i: int, j: int| #[trigger] shape_filled(piece_info.piece.piece_type, piece_info.piece.rotation, i, j);
                    assert(piece_info.piece.occupied(i, j));
                }
                shadow_row += 1;
            }
            Some(shadow_row)
        }
    }

    pub fn board(&self) -> (b: &TetrisBoard)
        ensures
            *b == self.board_spec(),
            b@ == self.cells(),
    {
        &self.board
    }

    pub fn piece(&self) -> (p: &Option<TetrisPieceWithPosition>)
        ensures
            *p == self.piece_spec(),
            match *p {
                Some(q) => self.active() == Some(q.state()),
                None => self.active() is None,
            },
    {
        &self.piece
    }

    pub fn hold_piece(&self) -> (h: &Option<HoldTetrisPiece>)
        ensures
            match *h {
                Some(q) => self.hold() == Some((q.piece.piece_type, q.piece.rotation, q.already_hold)),
                None => self.hold() is None,
            },
    {
        &self.hold_piece
    }

    /// The queued kinds, next one first.
    pub fn next_pieces(&self) -> (q: Vec<PlayableTetrisPieceType>)
        ensures
            q@ == self.queue().reverse(),
    {
        let mut out: Vec<PlayableTetrisPieceType> = Vec::new();
        let mut k: usize = self.buffer_next_pieces.len();
        while k > 0
            invariant
                0 <= k <= self.buffer_next_pieces@.len(),
                out@ == self.buffer_next_pieces@.subrange(k as int, self.buffer_next_pieces@.len() as int).reverse(),
            decreases k,
        {
            out.push(self.buffer_next_pieces[k - 1]);
            k -= 1;
            assert(out@ =~= self.buffer_next_pieces@.subrange(k as int, self.buffer_next_pieces@.len() as int).reverse());
        }
        assert(self.buffer_next_pieces@.subrange(0, self.buffer_next_pieces@.len() as int) =~= self.buffer_next_pieces@);
        out
    }

    pub fn score_state(&self) -> (s: ScoreState)
        ensures
            s == self.scores(),
    {
        self.score
    }

    pub fn lock_timer(&self) -> (t: u32)
        ensures
            t == self.lock_counter(),
    {
        self.lock_timer
    }

    pub fn current_gravity(&self) -> (g: u64)
        ensures
            g == self.gravity(),
    {
        self.current_gravity
    }

    pub fn last_kick(&self) -> (k: Option<Kick>)
        ensures
            k == self.kick_used(),
    {
        self.last_kick
    }
}

/// Soft drop pressed and then released, starting without soft drop, gives
/// back the gravity from before the press.
pub proof fn lemma_soft_drop_round_trip(before: App, pressed: App, released: App)
    requires
        before.gravity() == before.base_gravity(),
        soft_drop_pressed(before, pressed),
        soft_drop_released(pressed, released),
    ensures
        released.gravity() == before.gravity(),
{
}

/// Lock-delay reset: in a live game, a tick on a grounded piece that does
/// not lock yet resets the lock counter when a lateral move succeeded, and
/// otherwise counts one more tick, with the piece staying in its row.
pub proof fn lemma_lock_delay_reset(before: App, after: App, res: TetrisUpdateResult)
    requires
        tick(before, after, res),
        !before.over(),
        before.active() is Some,
        !before.just_spawned(),
        before.grounded(),
        before.lock_counter() < before.lock_delay(),
    ensures
        after.active() is Some,
        after.active().unwrap().2 == before.active().unwrap().2,
        after.active().unwrap().3 != before.active().unwrap().3 ==> after.lock_counter() == 0,
        after.active().unwrap().3 == before.active().unwrap().3 ==> after.lock_counter()
            == before.lock_counter() + 1,
{
}

/// A lock of a piece other than a T that completes exactly four rows and
/// leaves cells on the board is a Tetris; the back-to-back streak grows when
/// the previous classification was a Tetris or a T-spin, and resets otherwise.
pub proof fn lemma_tetris_lock(
    cells: Seq<Seq<TetrisCell>>,
    kind: PlayableTetrisPieceType,
    rot: TetrisPieceRotation,
    row: int,
    col: int,
    last_move: Moves,
    score: ScoreState,
)
    requires
        kind != PlayableTetrisPieceType::T,
        count_full(stamped(cells, kind, rot, row, col), C as int, R as int) == 4,
        !cells_empty(locked_cells(cells, kind, rot, row, col), R as int, C as int),
    ensures
        locked_score(cells, kind, rot, row, col, last_move, score).last_score == Some(
            ScoreType::Tetris,
        ),
        (score.last_score is Some && b2b_worth(score.last_score.unwrap())) ==> locked_score(
            cells,
            kind,
            rot,
            row,
            col,
            last_move,
            score,
        ).back_to_back == bump(score.back_to_back),
        !(score.last_score is Some && b2b_worth(score.last_score.unwrap())) ==> locked_score(
            cells,
            kind,
            rot,
            row,
            col,
            last_move,
            score,
        ).back_to_back == 0,
{
}

/// A lock that completes rows and leaves the board empty is an all-clear,
/// whatever the rows and the piece, and resets the back-to-back streak.
pub proof fn lemma_all_clear_lock(
    cells: Seq<Seq<TetrisCell>>,
    kind: PlayableTetrisPieceType,
    rot: TetrisPieceRotation,
    row: int,
    col: int,
    last_move: Moves,
    score: ScoreState,
)
    requires
        0 < count_full(stamped(cells, kind, rot, row, col), C as int, R as int) <= R,
        cells_empty(locked_cells(cells, kind, rot, row, col), R as int, C as int),
    ensures
        locked_score(cells, kind, rot, row, col, last_move, score).last_score == Some(
            ScoreType::AllClear,
        ),
        locked_score(cells, kind, rot, row, col, last_move, score).back_to_back == 0,
{
}

} // verus!
