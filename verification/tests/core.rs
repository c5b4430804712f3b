//! Exercises the verified game core end to end: geometry, rotation,
//! movement, locking, line clears, scoring, leveling, the bag randomizer
//! and the animation regulator.

use tetrs_core::animator::AnimationRegulator;
use tetrs_core::constants::{NUM_COLS, NUM_ROWS, RATIO_ONE};
use tetrs_core::data::{GameData, GameState, InputState, SoundEvent, Vec2};
use tetrs_core::game::Game;
use tetrs_core::grid::Grid;
use tetrs_core::selector::Selector;
use tetrs_core::tetromino::{Rotation, TType, Tetromino};

fn all_kinds() -> Vec<TType> {
    vec![
        TType::I,
        TType::O,
        TType::T,
        TType::L,
        TType::S,
        TType::Z,
        TType::J,
    ]
}

fn all_rotations() -> Vec<Rotation> {
    vec![
        Rotation::State1,
        Rotation::State2,
        Rotation::State3,
        Rotation::State4,
    ]
}

fn no_input() -> InputState {
    InputState {
        left: false,
        right: false,
        down: false,
        up: false,
    }
}

fn left_input() -> InputState {
    InputState {
        left: true,
        right: false,
        down: false,
        up: false,
    }
}

/// A game whose current piece is chosen by the test, on an empty board.
fn game_with_piece(kind: TType) -> Game {
    let mut g = Game::new(0);
    g.selector.current = Tetromino::new(kind);
    g.selector.ghost_piece = g.selector.current;
    g
}

#[test]
fn geometry_each_entry_has_four_distinct_cells() {
    for kind in all_kinds() {
        for rot in all_rotations() {
            let tet = Tetromino {
                _type: kind,
                rotation: rot,
                offset: Vec2::new(0, 0),
            };
            let cells = tet.get_curr_positions();
            assert_eq!(cells.len(), 4);
            for a in 0..4 {
                for b in (a + 1)..4 {
                    assert!(
                        cells[a] != cells[b],
                        "duplicate cell for {:?} {:?}",
                        kind,
                        rot
                    );
                }
            }
            for c in &cells {
                assert!(c.row >= 0 && c.row <= 3 && c.col >= 0 && c.col <= 3);
            }
        }
    }
}

#[test]
fn geometry_i_piece_spawn_row() {
    let tet = Tetromino::new(TType::I);
    let cells = tet.get_curr_positions();
    for c in &cells {
        assert_eq!(c.row, 0);
    }
    let cols: Vec<i32> = cells.iter().map(|c| c.col).collect();
    assert_eq!(cols, vec![3, 4, 5, 6]);
}

#[test]
fn rotation_is_a_four_cycle() {
    for rot in all_rotations() {
        let mut tet = Tetromino {
            _type: TType::T,
            rotation: rot,
            offset: Vec2::new(5, 5),
        };
        let before = tet;
        tet.rotate();
        tet.rotate();
        tet.rotate();
        tet.rotate();
        assert_eq!(tet, before);
        tet.rotate();
        tet.undo_rotate();
        assert_eq!(tet, before);
        tet.undo_rotate();
        tet.rotate();
        assert_eq!(tet, before);
    }
}

#[test]
fn move_pos_translates_offset() {
    let mut tet = Tetromino::new(TType::O);
    let before = tet.offset;
    tet.move_pos(Vec2::new(2, -1));
    assert_eq!(tet.offset.row, before.row + 2);
    assert_eq!(tet.offset.col, before.col - 1);
}

#[test]
fn i_piece_moves_left_three_times_then_is_blocked() {
    let mut g = game_with_piece(TType::I);
    for step in 0..3 {
        let moved = g.try_move(0, -1);
        assert!(moved, "left move {} should succeed", step);
    }
    let cells = g.selector.current.get_curr_positions();
    let leftmost = cells.iter().map(|c| c.col).min().unwrap();
    assert_eq!(leftmost, 0);
    let moved = g.try_move(0, -1);
    assert!(!moved, "a fourth left move must be reverted");
    let cells = g.selector.current.get_curr_positions();
    let leftmost = cells.iter().map(|c| c.col).min().unwrap();
    assert_eq!(leftmost, 0);
}

#[test]
fn i_piece_moves_left_through_update() {
    let mut g = game_with_piece(TType::I);
    for _ in 0..4 {
        g.update(&left_input(), 0);
    }
    let cells = g.selector.current.get_curr_positions();
    let leftmost = cells.iter().map(|c| c.col).min().unwrap();
    assert_eq!(leftmost, 0, "the piece stops at the wall");
    assert_eq!(g.state, GameState::Playing);
}

#[test]
fn update_emits_move_and_rotate_cues() {
    let mut g = game_with_piece(TType::T);
    let events = g.update(&left_input(), 0);
    assert_eq!(events, vec![SoundEvent::MoveSuccess]);
    let rotate = InputState {
        left: false,
        right: false,
        down: false,
        up: true,
    };
    let events = g.update(&rotate, 0);
    assert_eq!(events, vec![SoundEvent::RotateSuccess]);
    // A blocked attempt stays silent: the piece already rests on the wall.
    let mut g = game_with_piece(TType::I);
    g.update(&left_input(), 0);
    g.update(&left_input(), 0);
    g.update(&left_input(), 0);
    let events = g.update(&left_input(), 0);
    assert!(events.is_empty(), "a reverted move fires no cue");
}

#[test]
fn illegal_rotation_is_reverted() {
    let mut g = game_with_piece(TType::I);
    // Park the piece so high that every orientation but the flat one pokes
    // out above the board: the rotation attempt must be undone.
    g.selector.current = Tetromino {
        _type: TType::I,
        rotation: Rotation::State1,
        offset: Vec2::new(-1, -2),
    };
    let before = g.selector.current;
    let rotated = g.try_rotate();
    assert!(!rotated);
    assert_eq!(g.selector.current, before);
}

#[test]
fn lock_writes_piece_cells_into_grid() {
    let mut g = game_with_piece(TType::O);
    while g.try_move(1, 0) {}
    let cells = g.selector.current.get_curr_positions();
    let mut events: Vec<SoundEvent> = Vec::new();
    g.lock_block(0, &mut events);
    for c in &cells {
        assert!(!g.grid.is_empty(c), "locked cell {:?} must be occupied", c);
    }
    assert_eq!(events, vec![SoundEvent::PieceLocked]);
    assert_eq!(g.state, GameState::Playing);
}

/// Fills row `r` except for the listed columns.
fn fill_row_except(g: &mut Grid, r: i32, holes: &[i32]) {
    for c in 0..(NUM_COLS as i32) {
        if !holes.contains(&c) {
            g.set_type(&Vec2::new(r, c), TType::J);
        }
    }
}

#[test]
fn clearing_preserves_row_count_and_leaves_no_complete_row() {
    let mut grid = Grid::default();
    let mut reg = AnimationRegulator::default();
    let last = (NUM_ROWS - 1) as i32;
    fill_row_except(&mut grid, last, &[]);
    fill_row_except(&mut grid, last - 1, &[4]);
    fill_row_except(&mut grid, last - 2, &[]);
    let cleared = grid.check_complete(&mut reg, 0);
    assert_eq!(cleared, 2);
    assert_eq!(grid.values.len(), NUM_ROWS);
    for row in &grid.values {
        assert_eq!(row.len(), NUM_COLS);
        assert!(row.iter().any(|c| c.is_none()), "no row may stay complete");
    }
    // The incomplete row kept its contents and slid to the bottom.
    assert!(grid.is_empty(&Vec2::new(last, 4)));
    for c in 0..(NUM_COLS as i32) {
        if c != 4 {
            assert!(!grid.is_empty(&Vec2::new(last, c)));
        }
    }
    // One collapse record per cleared row, top to bottom, timers running.
    assert_eq!(grid.collapsed.len(), 2);
    assert_eq!(grid.collapsed[0].orig_row, NUM_ROWS - 3);
    assert_eq!(grid.collapsed[1].orig_row, NUM_ROWS - 1);
    for rec in &grid.collapsed {
        assert!(rec.id >= 2);
        assert_eq!(reg.animation_completed_ratio(rec.id, 0), 0);
    }
}

#[test]
fn clear_of_empty_board_does_nothing() {
    let mut grid = Grid::default();
    let mut reg = AnimationRegulator::default();
    let cleared = grid.check_complete(&mut reg, 0);
    assert_eq!(cleared, 0);
    assert_eq!(grid.collapsed.len(), 0);
}

#[test]
fn collapse_records_are_pruned_once_elapsed() {
    let mut grid = Grid::default();
    let mut reg = AnimationRegulator::default();
    fill_row_except(&mut grid, (NUM_ROWS - 1) as i32, &[]);
    grid.check_complete(&mut reg, 1000);
    assert_eq!(grid.collapsed.len(), 1);
    let id = grid.collapsed[0].id;
    let ratios = grid.draw_row_collapse_animation(&mut reg, 1400);
    assert_eq!(grid.collapsed.len(), 1, "halfway through, the record stays");
    assert_eq!(ratios, vec![RATIO_ONE / 2]);
    let ratios = grid.draw_row_collapse_animation(&mut reg, 2000);
    assert_eq!(grid.collapsed.len(), 0, "after the full duration it goes");
    assert_eq!(ratios.len(), 0);
    assert_eq!(reg.animation_completed_ratio(id, 2000), RATIO_ONE);
}

#[test]
fn bag_yields_each_kind_once_per_seven_draws() {
    let mut s = Selector::default();
    s.choices.clear();
    let mut drawn: Vec<TType> = Vec::new();
    for _ in 0..7 {
        drawn.push(s.next());
    }
    assert_eq!(s.choices.len(), 0, "after seven draws the bag is empty");
    for kind in all_kinds() {
        let n = drawn.iter().filter(|d| **d == kind).count();
        assert_eq!(n, 1, "{:?} must be drawn exactly once", kind);
    }
    // The eighth draw refills the bag with all seven before drawing.
    s.next();
    assert_eq!(s.choices.len(), 6);
}

#[test]
fn block_locked_rotates_the_pipeline() {
    let mut s = Selector::default();
    let next_before = s.next;
    s.block_locked();
    assert_eq!(s.current, next_before);
    assert_eq!(s.ghost_piece, next_before);
}

#[test]
fn scoring_table_level_0_and_4() {
    for (n, pts0, pts4) in [
        (1usize, 40u32, 200u32),
        (2, 100, 500),
        (3, 300, 1500),
        (4, 1200, 6000),
    ] {
        let mut d = GameData::default();
        d.collected = 0;
        let mut events: Vec<SoundEvent> = Vec::new();
        d.inc_score(n, &mut events);
        assert_eq!(d.score, pts0, "clearing {} rows at level 0", n);

        let mut d = GameData::default();
        d.level = 4;
        d.collected = 0;
        let mut events: Vec<SoundEvent> = Vec::new();
        d.inc_score(n, &mut events);
        assert_eq!(d.score, pts4, "clearing {} rows at level 4", n);
    }
}

#[test]
fn zero_clears_award_nothing() {
    let mut d = GameData::default();
    let mut events: Vec<SoundEvent> = Vec::new();
    d.inc_score(0, &mut events);
    assert_eq!(d.score, 0);
    assert_eq!(d.level, 0);
    assert!(events.is_empty());
}

#[test]
fn leveling_crosses_threshold_and_keeps_overflow() {
    let mut d = GameData::default();
    assert_eq!(d.collected, 9, "the initial lines-collected value");
    let mut events: Vec<SoundEvent> = Vec::new();
    d.inc_score(3, &mut events);
    assert_eq!(d.level, 1, "9 + 3 reaches the threshold");
    assert_eq!(d.collected, 2, "the counter drops by ten, not to zero");
    assert_eq!(events, vec![SoundEvent::LevelUp, SoundEvent::ClearTriple]);
}

#[test]
fn level_is_capped() {
    let mut d = GameData::default();
    d.level = 29;
    d.collected = 9;
    let mut events: Vec<SoundEvent> = Vec::new();
    d.inc_score(1, &mut events);
    assert_eq!(d.level, 29);
    assert_eq!(d.collected, 0);
    assert_eq!(events, vec![SoundEvent::ClearSingle]);
}

#[test]
fn gravity_cadence_follows_the_level_table() {
    let expect = [
        (0u8, 48u16),
        (1, 43),
        (2, 38),
        (3, 33),
        (4, 28),
        (5, 23),
        (6, 18),
        (7, 13),
        (8, 8),
        (9, 6),
        (10, 5),
        (12, 5),
        (13, 4),
        (15, 4),
        (16, 3),
        (18, 3),
        (19, 2),
        (28, 2),
        (29, 1),
    ];
    for (level, frames) in expect {
        let mut d = GameData::default();
        d.level = level;
        assert_eq!(d.frames_per_drop(), frames, "at level {}", level);
    }
}

#[test]
fn has_dropped_counts_frames_then_fires() {
    let mut d = GameData::default();
    d.level = 9;
    for _ in 0..6 {
        assert!(!d.has_dropped());
    }
    assert!(d.has_dropped(), "the seventh frame at level 9 descends");
    assert!(!d.has_dropped(), "and the counter starts over");
}

#[test]
fn completion_ratio_lifecycle() {
    let mut reg = AnimationRegulator::default();
    assert_eq!(
        reg.animation_completed_ratio(7, 123),
        RATIO_ONE,
        "an unknown identifier reads complete"
    );
    reg.reset_animation(7, 500, 1000);
    assert_eq!(reg.animation_completed_ratio(7, 1000), 0);
    assert_eq!(reg.animation_completed_ratio(7, 1250), RATIO_ONE / 2);
    assert_eq!(reg.animation_completed_ratio(7, 1500), RATIO_ONE);
    assert_eq!(reg.animation_completed_ratio(7, 9999), RATIO_ONE);
    reg.remove_animation(7);
    assert_eq!(reg.animation_completed_ratio(7, 1250), RATIO_ONE);
}

#[test]
fn reset_overwrites_a_running_timer() {
    let mut reg = AnimationRegulator::default();
    reg.reset_animation(3, 1000, 0);
    reg.reset_animation(3, 200, 400);
    assert_eq!(reg.animation_completed_ratio(3, 400), 0);
    assert_eq!(reg.animation_completed_ratio(3, 600), RATIO_ONE);
}

#[test]
fn blink_oscillates() {
    let mut reg = AnimationRegulator::default();
    assert_eq!(reg.as_blink(1, 50), RATIO_ONE);
    reg.reset_animation(1, 400, 0);
    assert_eq!(reg.as_blink(1, 0), 0);
    assert_eq!(reg.as_blink(1, 200), RATIO_ONE / 2);
    assert_eq!(reg.as_blink(1, 400), RATIO_ONE);
    assert_eq!(reg.as_blink(1, 600), RATIO_ONE / 2);
    assert_eq!(reg.as_blink(1, 800), 0);
    assert_eq!(reg.as_blink(1, 1000), RATIO_ONE / 2);
}

#[test]
fn ghost_piece_rests_on_the_floor_of_an_empty_board() {
    let mut g = game_with_piece(TType::O);
    g.update(&no_input(), 0);
    let ghost_cells = g.selector.ghost_piece.get_curr_positions();
    let bottom = ghost_cells.iter().map(|c| c.row).max().unwrap();
    assert_eq!(bottom, (NUM_ROWS - 1) as i32);
    let cols_piece: Vec<i32> = g
        .selector
        .current
        .get_curr_positions()
        .iter()
        .map(|c| c.col)
        .collect();
    let cols_ghost: Vec<i32> = ghost_cells.iter().map(|c| c.col).collect();
    assert_eq!(cols_piece, cols_ghost);
}

#[test]
fn soft_drop_awards_a_point_and_locks_at_the_bottom() {
    let mut g = game_with_piece(TType::O);
    let down = InputState {
        left: false,
        right: false,
        down: true,
        up: false,
    };
    let score0 = g.data.score;
    g.update(&down, 0);
    assert_eq!(g.data.score, score0 + 1, "a successful soft drop pays one point");
    // Keep dropping until the piece locks at the floor.
    let mut locked = false;
    for _ in 0..NUM_ROWS {
        let events = g.update(&down, 0);
        if events.contains(&SoundEvent::PieceLocked) {
            locked = true;
            break;
        }
    }
    assert!(locked, "the piece locks when it cannot descend");
    assert!(!g.grid.is_empty(&Vec2::new((NUM_ROWS - 1) as i32, 4)));
}

#[test]
fn stacking_to_the_top_ends_the_game() {
    let mut g = game_with_piece(TType::O);
    // Wall off the spawn area so every newly spawned piece is stuck.
    for r in 0..(NUM_ROWS as i32) {
        for c in 0..(NUM_COLS as i32) {
            if r >= 2 {
                g.grid.set_type(&Vec2::new(r, c), TType::J);
            }
        }
    }
    // Leave a hole so no row is complete.
    for r in 2..(NUM_ROWS as i32) {
        let mut row = std::mem::take(&mut g.grid.values[r as usize]);
        row[0] = None;
        g.grid.values[r as usize] = row;
    }
    let mut events: Vec<SoundEvent> = Vec::new();
    g.lock_block(0, &mut events);
    assert_eq!(g.state, GameState::GameOver);
    assert_eq!(events, vec![SoundEvent::GameOver]);
    // The game-over fade runs from the lock.
    assert_eq!(g.animation_handler.animation_completed_ratio(0, 0), 0);
    assert_eq!(g.animation_handler.animation_completed_ratio(0, 1000), RATIO_ONE);
    // Only a restart in the terminal state brings a fresh session.
    g.restart();
    assert_eq!(g.state, GameState::Playing);
    assert_eq!(g.data.score, 0);
    assert!(g.grid.is_empty(&Vec2::new((NUM_ROWS - 1) as i32, 5)));
}

#[test]
fn restart_is_ignored_while_playing() {
    let mut g = game_with_piece(TType::T);
    g.data.score = 777;
    g.restart();
    assert_eq!(g.data.score, 777);
    assert_eq!(g.state, GameState::Playing);
}

#[test]
fn locking_a_full_bottom_row_scores_forty() {
    let mut g = game_with_piece(TType::O);
    g.data.collected = 0;
    let last = (NUM_ROWS - 1) as i32;
    // Fill the two bottom rows except where the O piece will land.
    fill_row_except(&mut g.grid, last, &[4, 5]);
    fill_row_except(&mut g.grid, last - 1, &[0, 4, 5]);
    let down = InputState {
        left: false,
        right: false,
        down: true,
        up: false,
    };
    let mut cleared_events: Vec<SoundEvent> = Vec::new();
    let mut score_before = g.data.score;
    for _ in 0..(2 * NUM_ROWS) {
        score_before = g.data.score;
        let events = g.update(&down, 0);
        if events.contains(&SoundEvent::ClearSingle) {
            cleared_events = events;
            break;
        }
    }
    assert!(cleared_events.contains(&SoundEvent::ClearSingle));
    assert!(cleared_events.contains(&SoundEvent::PieceLocked));
    // The locking frame pays the 40-point single-clear award and no
    // soft-drop point, since the downward move itself was rejected.
    assert_eq!(g.data.score, score_before + 40);
    assert_eq!(g.data.collected, 1, "one line collected");
}
