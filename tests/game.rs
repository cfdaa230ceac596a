use rust_tetris::app::{App, GameParams, TetrisUpdateResult, C, GRAVITY_UNIT, R};
use rust_tetris::bag::PieceBag;
use rust_tetris::enums::{PlayableTetrisPieceType, TetrisPieceRotation};
use rust_tetris::score::{classify, is_b2b_worth, ScoreState, ScoreType};

const ALL: [PlayableTetrisPieceType; 7] = [
    PlayableTetrisPieceType::T,
    PlayableTetrisPieceType::L,
    PlayableTetrisPieceType::J,
    PlayableTetrisPieceType::O,
    PlayableTetrisPieceType::I,
    PlayableTetrisPieceType::S,
    PlayableTetrisPieceType::Z,
];

fn params() -> GameParams {
    GameParams {
        gravity: GRAVITY_UNIT,
        soft_drop_factor: 40,
        das: 10,
        arr: 2000,
        lock_delay: 30,
    }
}

fn state(app: &App) -> (PlayableTetrisPieceType, TetrisPieceRotation, isize, isize) {
    let p = app.piece().as_ref().unwrap();
    (p.tetris_piece_ref().piece_type, p.tetris_piece_ref().rotation, p.row(), p.col())
}

#[test]
fn bag_draws_every_kind_once_per_seven() {
    let mut bag = PieceBag::new();
    for _ in 0..4 {
        let mut seen = Vec::new();
        for _ in 0..7 {
            let k = bag.draw();
            assert!(!seen.contains(&k));
            seen.push(k);
        }
        for k in ALL.iter() {
            assert!(seen.contains(k));
        }
    }
}

#[test]
fn bag_order_is_shuffled() {
    let mut bag = PieceBag::new();
    let mut orders = Vec::new();
    for _ in 0..6 {
        let mut order = Vec::new();
        for _ in 0..7 {
            order.push(bag.draw());
        }
        orders.push(order);
    }
    assert!(orders.iter().any(|o| o != &orders[0]));
}

#[test]
fn start_fills_queue_and_spawns() {
    let mut app = App::new(params());
    assert!(app.piece().is_none());
    app.start();
    assert_eq!(app.next_pieces().len(), 5);
    let (_, rot, r, c) = state(&app);
    assert_eq!((rot, r, c), (TetrisPieceRotation::ZERO, 0, C / 2 - 1));
    assert!(app.board().is_empty());
}

#[test]
fn queue_feeds_spawns_in_order() {
    let mut app = App::new(params());
    app.start();
    let upcoming = app.next_pieces();
    app.hard_drop_key_pressed();
    assert_eq!(state(&app).0, upcoming[0]);
    assert_eq!(app.next_pieces()[..4], upcoming[1..]);
}

#[test]
fn rotation_round_trip_on_open_board() {
    for k in ALL.iter() {
        let mut app = App::new(params());
        app.set_current(*k);
        app.advance_frame();
        let before = state(&app);
        for _ in 0..4 {
            app.next_rot_pressed();
        }
        assert_eq!(state(&app), before);
        app.next_rot_pressed();
        app.prev_rot_pressed();
        assert_eq!(state(&app), before);
    }
}

#[test]
fn gravity_moves_one_row_per_tick() {
    let mut app = App::new(params());
    app.set_current(PlayableTetrisPieceType::O);
    assert_eq!(app.advance_frame(), TetrisUpdateResult::Continue);
    assert_eq!(state(&app).2, 1);
    app.advance_frame();
    assert_eq!(state(&app).2, 2);
}

fn ground(app: &mut App) {
    let mut n = 0;
    while app.lock_timer() == 0 {
        app.advance_frame();
        n += 1;
        assert!(n < 100);
    }
}

#[test]
fn lock_delay_reset_by_successful_move_only() {
    let mut app = App::new(params());
    app.set_current(PlayableTetrisPieceType::O);
    ground(&mut app);
    assert_eq!(app.lock_timer(), 1);
    app.advance_frame();
    assert_eq!(app.lock_timer(), 2);
    let col = state(&app).3;
    app.left_key_pressed();
    app.advance_frame();
    app.left_key_released();
    assert_eq!(state(&app).3, col - 1);
    assert_eq!(app.lock_timer(), 0);
    // walk to the left wall
    for _ in 0..10 {
        app.left_key_pressed();
        app.advance_frame();
        app.left_key_released();
    }
    let at_wall = state(&app).3;
    let timer = app.lock_timer();
    app.left_key_pressed();
    app.advance_frame();
    app.left_key_released();
    assert_eq!(state(&app).3, at_wall);
    assert_eq!(app.lock_timer(), timer + 1);
}

#[test]
fn piece_locks_after_delay() {
    let mut p = params();
    p.lock_delay = 2;
    let mut app = App::new(p);
    app.start();
    app.set_current(PlayableTetrisPieceType::I);
    ground(&mut app);
    app.advance_frame();
    app.advance_frame();
    // locked: the I piece lies on the bottom row and a new piece spawned
    assert!(app.board().is_set(R - 1, 4));
    assert_eq!(state(&app).2, 0);
}

#[test]
fn auto_repeat_after_delay() {
    let mut p = params();
    p.das = 3;
    p.arr = 500;
    p.gravity = 1;
    let mut app = App::new(p);
    app.set_current(PlayableTetrisPieceType::O);
    let c0 = state(&app).3;
    app.right_key_pressed();
    app.advance_frame();
    assert_eq!(state(&app).3, c0 + 1);
    app.advance_frame();
    app.advance_frame();
    assert_eq!(state(&app).3, c0 + 1);
    // delay reached: two cells per tick with a half-tick period
    app.advance_frame();
    assert_eq!(state(&app).3, c0 + 3);
}

#[test]
fn soft_drop_restores_gravity() {
    let mut app = App::new(params());
    app.set_current(PlayableTetrisPieceType::T);
    let g = app.current_gravity();
    app.soft_drop_key_pressed();
    assert_eq!(app.current_gravity(), g * 40);
    app.soft_drop_key_released();
    assert_eq!(app.current_gravity(), g);
}

#[test]
fn pause_freezes_ticks() {
    let mut app = App::new(params());
    app.set_current(PlayableTetrisPieceType::T);
    app.toggle_pause();
    assert!(app.is_paused());
    let before = state(&app);
    assert_eq!(app.update(), TetrisUpdateResult::Continue);
    assert_eq!(state(&app), before);
    assert!(app.get_shadow_row_index(app.piece().as_ref().unwrap()).is_none());
    app.toggle_pause();
    app.update();
    assert_eq!(state(&app).2, before.2 + 1);
}

#[test]
fn shadow_row_is_landing_row() {
    let mut app = App::new(params());
    app.set_current(PlayableTetrisPieceType::O);
    let p = app.piece().as_ref().unwrap();
    assert_eq!(app.get_shadow_row_index(p), Some(R - 2));
}

#[test]
fn hold_swaps_once_per_spawn() {
    let mut app = App::new(params());
    app.start();
    app.set_current(PlayableTetrisPieceType::T);
    app.next_rot_pressed();
    app.hold_key_pressed();
    let held = app.hold_piece().as_ref().unwrap();
    assert_eq!(held.piece.piece_type, PlayableTetrisPieceType::T);
    assert_eq!(held.piece.rotation, TetrisPieceRotation::ZERO);
    assert!(held.already_hold);
    let current = state(&app);
    app.hold_key_pressed();
    assert_eq!(state(&app), current);
    app.hard_drop_key_pressed();
    app.hold_key_pressed();
    assert_eq!(state(&app).0, PlayableTetrisPieceType::T);
}

#[test]
fn stacking_to_the_top_ends_the_game() {
    let mut app = App::new(params());
    app.start();
    for _ in 0..9 {
        app.set_current(PlayableTetrisPieceType::O);
        app.hard_drop_key_pressed();
    }
    app.set_current(PlayableTetrisPieceType::O);
    assert_eq!(app.advance_frame(), TetrisUpdateResult::GameOver);
    assert!(app.is_game_over());
    assert_eq!(app.update(), TetrisUpdateResult::GameOver);
}

#[test]
fn hard_drop_clears_and_scores() {
    let mut app = App::new(params());
    app.start();
    // five O pieces side by side fill the two bottom rows
    for col_shift in [5isize, 3, 1].iter() {
        app.set_current(PlayableTetrisPieceType::O);
        for _ in 0..*col_shift {
            app.move_left();
        }
        app.hard_drop_key_pressed();
    }
    assert!(app.board().is_set(R - 1, 0));
    app.set_current(PlayableTetrisPieceType::O);
    app.move_right();
    app.hard_drop_key_pressed();
    assert!(!app.board().is_empty());
    app.set_current(PlayableTetrisPieceType::O);
    for _ in 0..3 {
        app.move_right();
    }
    app.hard_drop_key_pressed();
    assert!(app.board().is_empty());
    assert_eq!(app.score_state().last_score, Some(ScoreType::AllClear));
    assert_eq!(app.score_state().current_combo, 1);
}

#[test]
fn remove_line_shifts_rows_down() {
    let mut app = App::new(params());
    app.start();
    app.set_current(PlayableTetrisPieceType::O);
    app.hard_drop_key_pressed();
    assert!(app.board().is_set(R - 2, 5));
    app.remove_line((R - 1) as usize);
    assert!(app.board().is_set(R - 1, 5));
    assert!(!app.board().is_set(R - 2, 5));
}

#[test]
fn classification_by_rows() {
    assert_eq!(classify(1, false), ScoreType::Single);
    assert_eq!(classify(2, false), ScoreType::Double);
    assert_eq!(classify(3, false), ScoreType::Triple);
    assert_eq!(classify(4, false), ScoreType::Tetris);
    assert_eq!(classify(1, true), ScoreType::TSpinSingle);
    assert_eq!(classify(2, true), ScoreType::TSpinDouble);
    assert_eq!(classify(3, true), ScoreType::TSpinTriple);
    assert!(!is_b2b_worth(ScoreType::Double));
    assert!(is_b2b_worth(ScoreType::TSpinSingle));
}

#[test]
fn tetris_after_tetris_is_back_to_back() {
    let mut s = ScoreState::new();
    s.record_lock(4, false, false);
    assert_eq!(s.last_score, Some(ScoreType::Tetris));
    assert_eq!(s.back_to_back, 0);
    assert_eq!(s.current_combo, 1);
    s.record_lock(4, false, false);
    assert_eq!(s.last_score, Some(ScoreType::Tetris));
    assert_eq!(s.back_to_back, 1);
    assert_eq!(s.current_combo, 2);
    s.record_lock(2, false, false);
    assert_eq!(s.last_score, Some(ScoreType::Double));
    assert_eq!(s.back_to_back, 0);
}

#[test]
fn all_clear_takes_precedence() {
    let mut s = ScoreState { last_score: Some(ScoreType::Tetris), back_to_back: 3, current_combo: 2 };
    s.record_lock(4, false, true);
    assert_eq!(s.last_score, Some(ScoreType::AllClear));
    assert_eq!(s.back_to_back, 0);
    assert_eq!(s.current_combo, 3);
}

#[test]
fn lock_without_clear_resets_combo() {
    let mut s = ScoreState { last_score: Some(ScoreType::Single), back_to_back: 2, current_combo: 4 };
    s.record_lock(0, false, false);
    assert_eq!(s.last_score, None);
    assert_eq!(s.current_combo, 0);
    assert_eq!(s.back_to_back, 2);
}

#[test]
fn t_spin_after_t_spin_is_back_to_back() {
    let mut s = ScoreState { last_score: Some(ScoreType::TSpinSingle), back_to_back: 0, current_combo: 0 };
    s.record_lock(2, true, false);
    assert_eq!(s.last_score, Some(ScoreType::TSpinDouble));
    assert_eq!(s.back_to_back, 1);
}

fn t_slot() -> App {
    let mut app = App::new(params());
    app.start();
    app.initial_setup(&["     *    ", "***   ****", "**** *****"], &[]);
    app.set_current(PlayableTetrisPieceType::T);
    app.prev_rot_pressed();
    app.move_left();
    ground(&mut app);
    assert_eq!(state(&app), (PlayableTetrisPieceType::T, TetrisPieceRotation::LEFT, R - 3, 3));
    app
}

#[test]
fn initial_setup_seeds_bottom_rows() {
    let mut app = App::new(params());
    app.initial_setup(&["*  ", " **"], &[PlayableTetrisPieceType::Z, PlayableTetrisPieceType::S]);
    assert!(app.board().is_set(R - 2, 0));
    assert!(!app.board().is_set(R - 2, 1));
    assert!(app.board().is_set(R - 1, 1) && app.board().is_set(R - 1, 2));
    assert!(!app.board().is_set(R - 1, 0));
    assert_eq!(app.next_pieces(), vec![PlayableTetrisPieceType::Z, PlayableTetrisPieceType::S]);
}

#[test]
fn t_spin_double_in_slot() {
    let mut app = t_slot();
    app.prev_rot_pressed();
    assert_eq!(state(&app), (PlayableTetrisPieceType::T, TetrisPieceRotation::TWO, R - 3, 3));
    app.hard_drop_key_pressed();
    assert_eq!(app.score_state().last_score, Some(ScoreType::TSpinDouble));
    assert_eq!(app.score_state().current_combo, 1);
    // the overhang cell is all that is left, moved down two rows
    assert!(app.board().is_set(R - 1, 5));
    assert!(!app.board().is_set(R - 3, 5));
}

#[test]
fn t_without_rotation_is_plain_single() {
    let mut app = t_slot();
    app.hard_drop_key_pressed();
    assert_eq!(app.score_state().last_score, Some(ScoreType::Single));
    assert_eq!(app.score_state().back_to_back, 0);
}

#[test]
fn all_clear_does_not_count_for_back_to_back() {
    let mut s = ScoreState { last_score: Some(ScoreType::AllClear), back_to_back: 0, current_combo: 1 };
    s.record_lock(4, false, false);
    assert_eq!(s.last_score, Some(ScoreType::Tetris));
    assert_eq!(s.back_to_back, 0);
    assert!(!is_b2b_worth(ScoreType::AllClear));
    assert!(is_b2b_worth(ScoreType::Tetris));
}

#[test]
fn update_runs_one_tick_when_live() {
    let mut app = App::new(params());
    app.start();
    let before = state(&app);
    assert_eq!(app.update(), TetrisUpdateResult::Continue);
    assert_eq!(state(&app).2, before.2 + 1);
}

#[test]
fn lock_spawns_oldest_queued_kind() {
    let mut p = params();
    p.lock_delay = 0;
    let mut app = App::new(p);
    app.start();
    let upcoming = app.next_pieces();
    app.set_current(PlayableTetrisPieceType::O);
    let mut n = 0;
    while app.board().is_empty() {
        app.advance_frame();
        n += 1;
        assert!(n < 100);
    }
    assert_eq!(state(&app).0, upcoming[0]);
    assert_eq!((state(&app).1, state(&app).2, state(&app).3), (TetrisPieceRotation::ZERO, 0, C / 2 - 1));
}
