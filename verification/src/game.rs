//! The per-frame orchestrator: it applies the attempt/validate/revert
//! protocol to every move and rotation, runs gravity, locks pieces, clears
//! rows, books the score and drives the animation timers. It consumes plain
//! input signals and a clock reading, and emits sound-event kinds.

use vstd::prelude::*;

use crate::animator::AnimationRegulator;
use crate::constants::{
    GAMEOVER_ANIM_DURATION, GAMEOVER_ANIM_ID, GHOST_BLINK_ANIM_DURATION, GHOST_BLINK_ANIM_ID,
    NUM_COLS, NUM_ROWS, ROW_DISSAPEAR_ANIM_DURATION,
};
use crate::data::{
    sat_add_u32, spec_frames_per_drop, spec_inc_score, spec_score_events, GameData, GameState,
    InputState, SoundEvent, Vec2,
};
use crate::grid::{
    complete_indices, empty_row_seq, incomplete_rows, minted_id, nth_id, row_complete, Grid,
};
use crate::selector::{draw_transition, full_bag, Selector};
use crate::tetromino::{
    base_cells, lemma_geometry_four_distinct, rot_next, spawned, Rotation, TType, Tetromino,
};

verus! {

/// Every one of the piece's four cells lies within the board.
pub open spec fn piece_in_bounds(tet: Tetromino) -> bool {
    forall|i: int|
        0 <= i < 4 ==> {
            let c = #[trigger] tet.cells()[i];
            0 <= c.0 < NUM_ROWS && 0 <= c.1 < NUM_COLS
        }
}

/// A piece sits legally when each of its four cells is inside the board and
/// on an empty cell.
pub open spec fn piece_fits(grid: Grid, tet: Tetromino) -> bool {
    forall|i: int|
        0 <= i < 4 ==> {
            let c = #[trigger] tet.cells()[i];
            0 <= c.0 < NUM_ROWS && 0 <= c.1 < NUM_COLS && grid.cell(c.0, c.1) is None
        }
}

/// The piece stays close enough to the board that one more unit move cannot
/// leave the window its operations are specified on.
pub open spec fn near_board(tet: Tetromino) -> bool {
    &&& -6 <= tet.offset.row <= 30
    &&& -6 <= tet.offset.col <= 30
}

/// No row of the board is complete (line clears have been run).
pub open spec fn no_complete_rows(grid: Grid) -> bool {
    forall|r: int| 0 <= r < NUM_ROWS ==> !row_complete(#[trigger] grid.grid_seq()[r])
}

/// `tet` translated by `(drow, dcol)` cells.
pub open spec fn moved_piece(tet: Tetromino, drow: int, dcol: int) -> Tetromino {
    Tetromino {
        _type: tet._type,
        rotation: tet.rotation,
        offset: (Vec2 {
            row: (tet.offset.row + drow) as i32,
            col: (tet.offset.col + dcol) as i32,
        }),
    }
}

/// `tet` rotated one step forward in the cycle.
pub open spec fn rotated_piece(tet: Tetromino) -> Tetromino {
    Tetromino { _type: tet._type, rotation: rot_next(tet.rotation), offset: tet.offset }
}

/// One shift attempt: the move is kept exactly when the shifted piece sits
/// legally, else the state is untouched.
pub open spec fn shift_outcome(pre: Game, dcol: int) -> Game {
    let m = moved_piece(pre.selector.current, 0, dcol);
    if piece_fits(pre.grid, m) {
        (Game { selector: (Selector { current: m, ..pre.selector }), ..pre })
    } else {
        pre
    }
}

/// A kept shift fires the move cue.
pub open spec fn shift_events(pre: Game, dcol: int) -> Seq<SoundEvent> {
    if piece_fits(pre.grid, moved_piece(pre.selector.current, 0, dcol)) {
        seq![SoundEvent::MoveSuccess]
    } else {
        Seq::empty()
    }
}

/// One rotation attempt: kept exactly when the rotated piece sits legally.
pub open spec fn rotate_outcome(pre: Game) -> Game {
    let m = rotated_piece(pre.selector.current);
    if piece_fits(pre.grid, m) {
        (Game { selector: (Selector { current: m, ..pre.selector }), ..pre })
    } else {
        pre
    }
}

/// A kept rotation fires the rotate cue.
pub open spec fn rotate_events(pre: Game) -> Seq<SoundEvent> {
    if piece_fits(pre.grid, rotated_piece(pre.selector.current)) {
        seq![SoundEvent::RotateSuccess]
    } else {
        Seq::empty()
    }
}

/// The player-input phase of one frame: a right shift, a left shift and a
/// rotation are attempted in that order, each only when its signal is set.
pub open spec fn input_outcome(pre: Game, input: InputState) -> Game {
    let g1 = if input.right {
        shift_outcome(pre, 1)
    } else {
        pre
    };
    let g2 = if input.left {
        shift_outcome(g1, -1)
    } else {
        g1
    };
    if input.up {
        rotate_outcome(g2)
    } else {
        g2
    }
}

/// The cues the input phase fires, in order.
pub open spec fn input_events(pre: Game, input: InputState) -> Seq<SoundEvent> {
    let e1 = if input.right {
        shift_events(pre, 1)
    } else {
        Seq::<SoundEvent>::empty()
    };
    let g1 = if input.right {
        shift_outcome(pre, 1)
    } else {
        pre
    };
    let e2 = if input.left {
        shift_events(g1, -1)
    } else {
        Seq::<SoundEvent>::empty()
    };
    let g2 = if input.left {
        shift_outcome(g1, -1)
    } else {
        g1
    };
    let e3 = if input.up {
        rotate_events(g2)
    } else {
        Seq::<SoundEvent>::empty()
    };
    e1 + e2 + e3
}

/// A single timer was (re)started; every other timer is untouched.
pub open spec fn timer_set_rel(
    pre: AnimationRegulator,
    post: AnimationRegulator,
    id: u16,
    duration: u64,
    now: u64,
) -> bool {
    &&& post.has_timer(id)
    &&& post.timer(id) == (duration, now)
    &&& forall|j: u16| j != id ==> #[trigger] post.has_timer(j) == pre.has_timer(j)
    &&& forall|j: u16|
        j != id && pre.has_timer(j) ==> #[trigger] post.timer(j) == pre.timer(j)
}

/// The full effect of locking the current piece: its four cells written with
/// its kind, the pipeline advanced with a fresh draw from the bag, and play
/// continuing exactly when the spawned piece sits legally — else the
/// terminal state, with the game-over fade started.
pub open spec fn lock_rel(pre: Game, post: Game, now: u64, ev: Seq<SoundEvent>) -> bool {
    &&& forall|r: int, c: int|
        0 <= r < NUM_ROWS && 0 <= c < NUM_COLS ==> #[trigger] post.grid.cell(r, c) == (
        if pre.selector.current.cells().contains((r, c)) {
            Some(pre.selector.current._type)
        } else {
            pre.grid.cell(r, c)
        })
    &&& post.grid.collapsed@ == pre.grid.collapsed@
    &&& post.grid.next_anim_id == pre.grid.next_anim_id
    &&& post.selector.current == pre.selector.next
    &&& post.selector.ghost_piece == pre.selector.next
    &&& (exists|t: TType|
        #[trigger] draw_transition(pre.selector.choices@, post.selector.choices@, t)
            && post.selector.next == spawned(t))
    &&& post.data == pre.data
    &&& if piece_fits(post.grid, pre.selector.next) {
        &&& post.state == pre.state
        &&& post.has_current_changed
        &&& ev == seq![SoundEvent::PieceLocked]
        &&& post.animation_handler == pre.animation_handler
    } else {
        &&& post.state == GameState::GameOver
        &&& post.has_current_changed == pre.has_current_changed
        &&& ev == seq![SoundEvent::GameOver]
        &&& timer_set_rel(
            pre.animation_handler,
            post.animation_handler,
            GAMEOVER_ANIM_ID,
            GAMEOVER_ANIM_DURATION,
            now,
        )
    }
}

/// The soft-drop phase: while Down is held and the latch from the last lock
/// is clear, one descent is attempted — kept for a flat extra point, or
/// locking the piece where it stood; releasing Down clears the latch.
pub open spec fn soft_drop_rel(
    pre: Game,
    post: Game,
    down: bool,
    now: u64,
    ev: Seq<SoundEvent>,
) -> bool {
    if down {
        if !pre.has_current_changed {
            let m = moved_piece(pre.selector.current, 1, 0);
            if piece_fits(pre.grid, m) {
                &&& post == (Game {
                    selector: (Selector { current: m, ..pre.selector }),
                    data: (GameData { score: sat_add_u32(pre.data.score, 1), ..pre.data }),
                    ..pre
                })
                &&& ev == Seq::<SoundEvent>::empty()
            } else {
                lock_rel(pre, post, now, ev)
            }
        } else {
            &&& post == pre
            &&& ev == Seq::<SoundEvent>::empty()
        }
    } else {
        &&& post == (Game { has_current_changed: false, ..pre })
        &&& ev == Seq::<SoundEvent>::empty()
    }
}

/// Whether the gravity counter reaches the cadence threshold this frame.
pub open spec fn gravity_fires(pre: Game) -> bool {
    pre.data.frames_since_last_fall >= spec_frames_per_drop(pre.data.level)
}

/// The gravity counter after one frame: reset on firing, else advanced.
pub open spec fn tick_gravity(pre: Game) -> Game {
    (Game {
        data: (GameData {
            frames_since_last_fall: if gravity_fires(pre) {
                0
            } else {
                (pre.data.frames_since_last_fall + 1) as u16
            },
            ..pre.data
        }),
        ..pre
    })
}

/// The gravity phase: the counter ticks; on firing, one forced descent is
/// attempted — kept, or locking the piece where it stood.
pub open spec fn gravity_rel(pre: Game, post: Game, now: u64, ev: Seq<SoundEvent>) -> bool {
    let mid = tick_gravity(pre);
    if gravity_fires(pre) {
        let m = moved_piece(mid.selector.current, 1, 0);
        if piece_fits(mid.grid, m) {
            &&& post == (Game { selector: (Selector { current: m, ..mid.selector }), ..mid })
            &&& ev == Seq::<SoundEvent>::empty()
        } else {
            lock_rel(mid, post, now, ev)
        }
    } else {
        &&& post == mid
        &&& ev == Seq::<SoundEvent>::empty()
    }
}

/// The clear-and-score phase: every complete row leaves atomically with a
/// collapse record and timer minted per row (stated in full at
/// `Grid::check_complete`), and the cleared count is booked by the scoring
/// rules at the pre-raise level.
pub open spec fn clear_phase_rel(pre: Game, post: Game, now: u64, ev: Seq<SoundEvent>) -> bool {
    let n = complete_indices(pre.grid.grid_seq()).len() as int;
    &&& post.grid.grid_seq() == Seq::new(n as nat, |i: int| empty_row_seq()) + incomplete_rows(
        pre.grid.grid_seq(),
    )
    &&& post.grid.next_anim_id == nth_id(pre.grid.next_anim_id, n as nat)
    &&& post.grid.collapsed@.len() == pre.grid.collapsed@.len() + n
    &&& (forall|k: int|
        0 <= k < pre.grid.collapsed@.len() ==> #[trigger] post.grid.collapsed@[k]
            == pre.grid.collapsed@[k])
    &&& (forall|k: nat|
        k < n ==> post.animation_handler.has_timer(#[trigger] nth_id(pre.grid.next_anim_id, k))
            && post.animation_handler.timer(nth_id(pre.grid.next_anim_id, k)) == (
        ROW_DISSAPEAR_ANIM_DURATION, now))
    &&& (forall|j: u16|
        !minted_id(pre.grid.next_anim_id, n as nat, j)
            ==> #[trigger] post.animation_handler.has_timer(j) == pre.animation_handler.has_timer(
            j,
        ))
    &&& post.data == spec_inc_score(pre.data, n)
    &&& ev == spec_score_events(pre.data, n)
    &&& post.selector == pre.selector
    &&& post.state == pre.state
    &&& post.has_current_changed == pre.has_current_changed
}

/// The preview phase: only the ghost piece changes; when the current piece
/// sits legally, the ghost shares its kind, orientation and column and rests
/// on the lowest legal row below it.
pub open spec fn ghost_rel(pre: Game, post: Game) -> bool {
    &&& post == (Game {
        selector: (Selector { ghost_piece: post.selector.ghost_piece, ..pre.selector }),
        ..pre
    })
    &&& post.selector.ghost_piece._type == pre.selector.current._type
    &&& (piece_fits(pre.grid, pre.selector.current) ==> {
        let g = post.selector.ghost_piece;
        &&& piece_fits(post.grid, g)
        &&& !piece_fits(post.grid, moved_piece(g, 1, 0))
        &&& g.rotation == pre.selector.current.rotation
        &&& g.offset.col == pre.selector.current.offset.col
    })
}

/// The falling phases of one frame, in order: soft drop, then gravity.
pub open spec fn fall_rel(pre: Game, post: Game, down: bool, now: u64, ev: Seq<SoundEvent>) -> bool {
    exists|g1: Game, ev2: Seq<SoundEvent>, ev3: Seq<SoundEvent>|
        {
            &&& #[trigger] soft_drop_rel(pre, g1, down, now, ev2)
            &&& #[trigger] gravity_rel(g1, post, now, ev3)
            &&& ev == ev2 + ev3
        }
}

/// The motion phases of one frame, in their fixed order: player input, soft
/// drop, gravity.
pub open spec fn motion_rel(
    pre: Game,
    post: Game,
    input: InputState,
    now: u64,
    ev: Seq<SoundEvent>,
) -> bool {
    exists|evf: Seq<SoundEvent>|
        #[trigger] fall_rel(input_outcome(pre, input), post, input.down, now, evf) && ev
            == input_events(pre, input) + evf
}

/// One whole frame while play goes on: input handling, soft drop and gravity
/// (each lock advancing the pipeline), the atomic clear with its scoring,
/// and the preview recompute — with the frame's cues in order.
pub open spec fn frame_rel(
    pre: Game,
    post: Game,
    input: InputState,
    now: u64,
    ev: Seq<SoundEvent>,
) -> bool {
    exists|g2: Game, g3: Game, evm: Seq<SoundEvent>, evc: Seq<SoundEvent>|
        {
            &&& #[trigger] motion_rel(pre, g2, input, now, evm)
            &&& #[trigger] clear_phase_rel(g2, g3, now, evc)
            &&& ghost_rel(g3, post)
            &&& ev == evm + evc
        }
}

/// An in-bounds piece's offset lies well inside the near-board window.
proof fn lemma_in_bounds_offset(tet: Tetromino)
    requires
        piece_in_bounds(tet),
    ensures
        -3 <= tet.offset.row <= 19,
        -3 <= tet.offset.col <= 9,
{
    lemma_geometry_four_distinct(tet._type, tet.rotation);
    assert(0 <= tet.cells()[0].0 < NUM_ROWS && 0 <= tet.cells()[0].1 < NUM_COLS);
}

/// A freshly spawned piece lies within the board.
proof fn lemma_spawned_in_bounds(t: TType)
    ensures
        piece_in_bounds(spawned(t)),
        near_board(spawned(t)),
{
    reveal(base_cells);
    lemma_geometry_four_distinct(t, Rotation::State1);
    let tet = spawned(t);
    assert forall|i: int|
        0 <= i < 4 implies {
        let c = #[trigger] tet.cells()[i];
        0 <= c.0 < NUM_ROWS && 0 <= c.1 < NUM_COLS
    } by {
        if t == TType::I {
            assert(base_cells(t, Rotation::State1)[i].0 == 1);
        }
    }
}

/// On an empty board every freshly spawned piece sits legally.
proof fn lemma_spawn_fits(grid: Grid, t: TType)
    requires
        grid.wf(),
        forall|r: int, c: int|
            0 <= r < NUM_ROWS && 0 <= c < NUM_COLS ==> #[trigger] grid.cell(r, c) is None,
    ensures
        piece_fits(grid, spawned(t)),
{
    lemma_spawned_in_bounds(t);
}

/// The whole game session: board, selector pipeline, score data, terminal
/// flag, soft-drop latch and the animation timers.
pub struct Game {
    pub selector: Selector,
    pub grid: Grid,
    pub state: GameState,
    pub data: GameData,
    pub has_current_changed: bool,
    pub animation_handler: AnimationRegulator,
}

impl Game {
    /// Every component is well formed, the ghost piece shares the current
    /// piece's kind, the current piece never leaves the board, and the next
    /// piece waits at its spawn position.
    pub open spec fn wf(&self) -> bool {
        &&& self.grid.wf()
        &&& self.data.wf()
        &&& self.animation_handler.wf()
        &&& self.selector.bag_wf()
        &&& self.selector.current.wf()
        &&& self.selector.ghost_piece.wf()
        &&& self.selector.next.wf()
        &&& near_board(self.selector.current)
        &&& piece_in_bounds(self.selector.current)
        &&& self.selector.ghost_piece._type == self.selector.current._type
        &&& (exists|t: TType| self.selector.next == spawned(t))
    }

    /// A fresh session: empty board, default counters, a random piece
    /// pipeline, and the ghost-blink timer started at `now`.
    pub fn new(now: u64) -> (g: Game)
        ensures
            g.wf(),
            g.state == GameState::Playing,
            g.data.level == 0,
            g.data.score == 0,
            g.data.frames_since_last_fall == 0,
            g.data.collected == 9,
            g.has_current_changed == false,
            no_complete_rows(g.grid),
            g.grid.collapsed@.len() == 0,
            forall|r: int, c: int|
                0 <= r < NUM_ROWS && 0 <= c < NUM_COLS ==> #[trigger] g.grid.cell(r, c) is None,
            g.animation_handler.has_timer(GHOST_BLINK_ANIM_ID),
            g.animation_handler.timer(GHOST_BLINK_ANIM_ID) == (GHOST_BLINK_ANIM_DURATION, now),
            forall|j: u16| j != GHOST_BLINK_ANIM_ID ==> !g.animation_handler.has_timer(j),
            g.selector.choices@.len() == 5,
            g.selector.ghost_piece == g.selector.current,
            exists|t1: TType, t2: TType|
                #[trigger] g.selector.current == spawned(t1) && #[trigger] g.selector.next
                    == spawned(t2) && g.selector.choices@.to_multiset() == full_bag().remove(
                    t1,
                ).remove(t2),
            piece_fits(g.grid, g.selector.current),
    {
        let mut animation_handler = AnimationRegulator::default();
        animation_handler.reset_animation(GHOST_BLINK_ANIM_ID, GHOST_BLINK_ANIM_DURATION, now);
        let selector = Selector::default();
        let grid = Grid::default();
        let g = Game {
            selector,
            grid,
            state: GameState::Playing,
            data: GameData::default(),
            has_current_changed: false,
            animation_handler,
        };
        proof {
            assert forall|r: int, c: int|
                0 <= r < NUM_ROWS && 0 <= c < NUM_COLS implies #[trigger] g.grid.cell(r, c)
                is None by {
                assert(g.grid.grid_seq()[r] =~= crate::grid::empty_row_seq());
                assert(g.grid.grid_seq()[r] == g.grid.values@[r]@);
            }
            let (t1, t2) = choose|t1: TType, t2: TType|
                #[trigger] g.selector.current == spawned(t1) && #[trigger] g.selector.next
                    == spawned(t2);
            lemma_spawn_fits(g.grid, t1);
            lemma_spawned_in_bounds(t1);
            assert forall|r: int|
                0 <= r < NUM_ROWS implies !row_complete(#[trigger] g.grid.grid_seq()[r]) by {
                assert(g.grid.grid_seq()[r] =~= crate::grid::empty_row_seq());
                assert(g.grid.grid_seq()[r][0] is None);
            }
        }
        g
    }

    /// True exactly when `block` sits legally on the board.
    pub fn is_inside(&self, block: &Tetromino) -> (b: bool)
        requires
            self.grid.wf(),
            block.wf(),
        ensures
            b == piece_fits(self.grid, *block),
    {
        let positions = block.get_curr_positions();
        let mut i: usize = 0;
        while i < 4
            invariant
                self.grid.wf(),
                block.wf(),
                positions@.len() == 4,
                forall|k: int|
                    0 <= k < 4 ==> {
                        &&& positions@[k].row == block.cells()[k].0
                        &&& positions@[k].col == block.cells()[k].1
                    },
                i <= 4,
                forall|k: int|
                    0 <= k < i ==> {
                        let c = #[trigger] block.cells()[k];
                        0 <= c.0 < NUM_ROWS && 0 <= c.1 < NUM_COLS && self.grid.cell(c.0, c.1)
                            is None
                    },
            decreases 4 - i,
        {
            let pos = positions[i];
            if !self.grid.is_cell_contained(&pos) {
                proof {
                    assert(!piece_fits(self.grid, *block)) by {
                        let c = block.cells()[i as int];
                        assert(!(0 <= c.0 < NUM_ROWS && 0 <= c.1 < NUM_COLS));
                    }
                }
                return false;
            }
            if !self.grid.is_empty(&pos) {
                proof {
                    assert(!piece_fits(self.grid, *block)) by {
                        let c = block.cells()[i as int];
                        assert(self.grid.cell(c.0, c.1) is Some);
                    }
                }
                return false;
            }
            i = i + 1;
        }
        true
    }

    /// True exactly when the current piece sits legally.
    pub fn is_block_inside(&self) -> (b: bool)
        requires
            self.grid.wf(),
            self.selector.current.wf(),
        ensures
            b == piece_fits(self.grid, self.selector.current),
    {
        self.is_inside(&self.selector.current)
    }

    /// True exactly when the ghost piece sits legally.
    pub fn is_ghost_inside(&self) -> (b: bool)
        requires
            self.grid.wf(),
            self.selector.ghost_piece.wf(),
        ensures
            b == piece_fits(self.grid, self.selector.ghost_piece),
    {
        self.is_inside(&self.selector.ghost_piece)
    }

    /// Writes the current piece's four cells into the board, advances the
    /// piece pipeline, and either continues play (the spawned piece sits
    /// legally) or enters the terminal state and starts the game-over fade.
    pub fn lock_block(&mut self, now: u64, events: &mut Vec<SoundEvent>)
        requires
            old(self).wf(),
        ensures
            final(self).wf(),
            final(self).data == old(self).data,
            final(self).selector.current == old(self).selector.next,
            final(self).selector.ghost_piece == old(self).selector.next,
            exists|t: TType|
                #[trigger] draw_transition(
                    old(self).selector.choices@,
                    final(self).selector.choices@,
                    t,
                ) && final(self).selector.next == spawned(t),
            lock_rel(
                *old(self),
                *final(self),
                now,
                final(events)@.skip(old(events)@.len() as int),
            ),
            final(events)@.len() == old(events)@.len() + 1,
            forall|r: int, c: int|
                0 <= r < NUM_ROWS && 0 <= c < NUM_COLS ==> #[trigger] final(self).grid.cell(r, c)
                    == (if old(self).selector.current.cells().contains((r, c)) {
                    Some(old(self).selector.current._type)
                } else {
                    old(self).grid.cell(r, c)
                }),
            final(self).grid.collapsed@ == old(self).grid.collapsed@,
            final(self).grid.next_anim_id == old(self).grid.next_anim_id,
            piece_fits(final(self).grid, old(self).selector.next) ==> {
                &&& final(self).state == old(self).state
                &&& final(self).has_current_changed
                &&& final(events)@ == old(events)@.push(SoundEvent::PieceLocked)
                &&& final(self).animation_handler == old(self).animation_handler
            },
            !piece_fits(final(self).grid, old(self).selector.next) ==> {
                &&& final(self).state == GameState::GameOver
                &&& final(self).has_current_changed == old(self).has_current_changed
                &&& final(events)@ == old(events)@.push(SoundEvent::GameOver)
                &&& final(self).animation_handler.has_timer(GAMEOVER_ANIM_ID)
                &&& final(self).animation_handler.timer(GAMEOVER_ANIM_ID) == (
                GAMEOVER_ANIM_DURATION, now)
            },
    {
        let ghost cur = old(self).selector.current;
        let ty = self.selector.current._type;
        let positions = self.selector.current.get_curr_positions();
        let mut i: usize = 0;
        while i < 4
            invariant
                old(self).wf(),
                cur == old(self).selector.current,
                self.grid.wf(),
                self.selector == old(self).selector,
                self.state == old(self).state,
                self.data == old(self).data,
                self.has_current_changed == old(self).has_current_changed,
                self.animation_handler == old(self).animation_handler,
                self.grid.collapsed@ == old(self).grid.collapsed@,
                self.grid.next_anim_id == old(self).grid.next_anim_id,
                ty == cur._type,
                positions@.len() == 4,
                forall|k: int|
                    0 <= k < 4 ==> {
                        &&& positions@[k].row == cur.cells()[k].0
                        &&& positions@[k].col == cur.cells()[k].1
                    },
                i <= 4,
                forall|r: int, c: int|
                    0 <= r < NUM_ROWS && 0 <= c < NUM_COLS ==> #[trigger] self.grid.cell(r, c)
                        == (if cur.cells().take(i as int).contains((r, c)) {
                        Some(cur._type)
                    } else {
                        old(self).grid.cell(r, c)
                    }),
            decreases 4 - i,
        {
            let ghost pre = self.grid;
            self.grid.set_type(&positions[i], ty);
            proof {
                let pref = cur.cells().take(i as int + 1);
                let prev = cur.cells().take(i as int);
                assert(pref.drop_last() =~= prev);
                assert(pref.last() == cur.cells()[i as int]);
                assert forall|r: int, c: int|
                    0 <= r < NUM_ROWS && 0 <= c < NUM_COLS implies #[trigger] self.grid.cell(r, c)
                    == (if pref.contains((r, c)) {
                    Some(cur._type)
                } else {
                    old(self).grid.cell(r, c)
                }) by {
                    if r == cur.cells()[i as int].0 && c == cur.cells()[i as int].1 {
                        assert(pref[i as int] == (r, c));
                        assert(pref.contains((r, c)));
                    } else {
                        assert(self.grid.cell(r, c) == pre.cell(r, c));
                        assert forall|m: int|
                            0 <= m < pref.len() && pref[m] == (r, c) implies prev.contains(
                            (r, c),
                        ) by {
                            assert(m < i as int);
                            assert(prev[m] == (r, c));
                        }
                        assert(pref.contains((r, c)) == prev.contains((r, c)));
                    }
                }
            }
            i = i + 1;
        }
        proof {
            assert(cur.cells().take(4) =~= cur.cells());
        }
        self.selector.block_locked();
        let fits = self.is_block_inside();
        if !fits {
            self.state = GameState::GameOver;
            self.animation_handler.reset_animation(GAMEOVER_ANIM_ID, GAMEOVER_ANIM_DURATION, now);
            events.push(SoundEvent::GameOver);
        } else {
            events.push(SoundEvent::PieceLocked);
            self.has_current_changed = true;
        }
        proof {
            let t = choose|t: TType| old(self).selector.next == spawned(t);
            lemma_spawned_in_bounds(t);
            assert(final(events)@.skip(old(events)@.len() as int) =~= seq![
                final(events)@.last(),
            ]);
        }
    }

    /// Honored only in the terminal state: starts a fresh session, keeping
    /// nothing of the finished one but the soft-drop latch. Every animation
    /// timer is discarded too, so the ghost-blink timer stays off until a
    /// session built with `new` starts one.
    pub fn restart(&mut self)
        requires
            old(self).wf(),
        ensures
            final(self).wf(),
            old(self).state == GameState::Playing ==> *final(self) == *old(self),
            old(self).state == GameState::GameOver ==> {
                &&& final(self).state == GameState::Playing
                &&& final(self).data.level == 0
                &&& final(self).data.score == 0
                &&& final(self).data.frames_since_last_fall == 0
                &&& final(self).data.collected == 9
                &&& no_complete_rows(final(self).grid)
                &&& final(self).grid.collapsed@.len() == 0
                &&& (forall|r: int, c: int|
                    0 <= r < NUM_ROWS && 0 <= c < NUM_COLS ==> #[trigger] final(self).grid.cell(
                        r,
                        c,
                    ) is None)
                &&& (forall|j: u16| !final(self).animation_handler.has_timer(j))
                &&& final(self).selector.choices@.len() == 5
                &&& final(self).selector.ghost_piece == final(self).selector.current
                &&& (exists|t1: TType, t2: TType|
                    #[trigger] final(self).selector.current == spawned(t1)
                        && #[trigger] final(self).selector.next == spawned(t2)
                        && final(self).selector.choices@.to_multiset() == full_bag().remove(
                        t1,
                    ).remove(t2))
                &&& piece_fits(final(self).grid, final(self).selector.current)
                &&& final(self).has_current_changed == old(self).has_current_changed
            },
    {
        match self.state {
            GameState::GameOver => {
                self.selector = Selector::default();
                self.grid = Grid::default();
                self.data = GameData::default();
                self.animation_handler = AnimationRegulator::default();
                self.state = GameState::Playing;
                proof {
                    let (t1, t2) = choose|t1: TType, t2: TType|
                        #[trigger] self.selector.current == spawned(t1)
                            && #[trigger] self.selector.next == spawned(t2)
                            && self.selector.choices@.to_multiset() == full_bag().remove(
                            t1,
                        ).remove(t2);
                    lemma_spawned_in_bounds(t1);
                    assert forall|r: int, c: int|
                        0 <= r < NUM_ROWS && 0 <= c < NUM_COLS implies #[trigger] self.grid.cell(
                            r,
                            c,
                        ) is None by {
                        assert(self.grid.grid_seq()[r] =~= empty_row_seq());
                        assert(self.grid.grid_seq()[r] == self.grid.values@[r]@);
                    }
                    lemma_spawn_fits(self.grid, t1);
                    assert forall|r: int|
                        0 <= r < NUM_ROWS implies !row_complete(
                        #[trigger] self.grid.grid_seq()[r],
                    ) by {
                        assert(self.grid.grid_seq()[r] =~= empty_row_seq());
                        assert(self.grid.grid_seq()[r][0] is None);
                    }
                }
            },
            GameState::Playing => {},
        }
    }

    /// One attempt of the attempt/validate/revert protocol for a unit
    /// translation: the move is kept exactly when the moved piece sits
    /// legally, and otherwise reverted so the piece is exactly as before.
    pub fn try_move(&mut self, drow: i32, dcol: i32) -> (moved: bool)
        requires
            old(self).grid.wf(),
            old(self).selector.current.wf(),
            near_board(old(self).selector.current),
            -1 <= drow <= 1,
            -1 <= dcol <= 1,
        ensures
            final(self).grid == old(self).grid,
            final(self).state == old(self).state,
            final(self).data == old(self).data,
            final(self).has_current_changed == old(self).has_current_changed,
            final(self).animation_handler == old(self).animation_handler,
            final(self).selector.choices == old(self).selector.choices,
            final(self).selector.ghost_piece == old(self).selector.ghost_piece,
            final(self).selector.next == old(self).selector.next,
            final(self).selector.current.wf(),
            near_board(final(self).selector.current),
            ({
                let moved_tet = (Tetromino {
                    _type: old(self).selector.current._type,
                    rotation: old(self).selector.current.rotation,
                    offset: (Vec2 {
                        row: (old(self).selector.current.offset.row + drow) as i32,
                        col: (old(self).selector.current.offset.col + dcol) as i32,
                    }),
                });
                if piece_fits(old(self).grid, moved_tet) {
                    moved && final(self).selector.current == moved_tet
                } else {
                    !moved && final(self).selector.current == old(self).selector.current
                }
            }),
    {
        self.selector.current.move_pos(Vec2::new(drow, dcol));
        if !self.is_block_inside() {
            self.selector.current.move_pos(Vec2::new(-drow, -dcol));
            false
        } else {
            proof {
                lemma_in_bounds_offset(self.selector.current);
            }
            true
        }
    }

    /// One attempt of the attempt/validate/revert protocol for a rotation:
    /// the rotation is kept exactly when the rotated piece sits legally, and
    /// otherwise undone so the piece is exactly as before.
    pub fn try_rotate(&mut self) -> (rotated: bool)
        requires
            old(self).grid.wf(),
            old(self).selector.current.wf(),
        ensures
            final(self).grid == old(self).grid,
            final(self).state == old(self).state,
            final(self).data == old(self).data,
            final(self).has_current_changed == old(self).has_current_changed,
            final(self).animation_handler == old(self).animation_handler,
            final(self).selector.choices == old(self).selector.choices,
            final(self).selector.ghost_piece == old(self).selector.ghost_piece,
            final(self).selector.next == old(self).selector.next,
            final(self).selector.current.offset == old(self).selector.current.offset,
            final(self).selector.current._type == old(self).selector.current._type,
            ({
                let rotated_tet = (Tetromino {
                    _type: old(self).selector.current._type,
                    rotation: crate::tetromino::rot_next(old(self).selector.current.rotation),
                    offset: old(self).selector.current.offset,
                });
                if piece_fits(old(self).grid, rotated_tet) {
                    rotated && final(self).selector.current == rotated_tet
                } else {
                    !rotated && final(self).selector.current == old(self).selector.current
                }
            }),
    {
        self.selector.current.rotate();
        if !self.is_block_inside() {
            self.selector.current.undo_rotate();
            proof {
                crate::tetromino::lemma_rotation_cycle(old(self).selector.current.rotation);
            }
            false
        } else {
            true
        }
    }

    /// One gravity or soft-drop step: the piece descends one row if that
    /// position is legal; otherwise it stays put and locks. The board gains
    /// cells only in the descending piece's rows.
    fn descend_or_lock(&mut self, now: u64, events: &mut Vec<SoundEvent>) -> (moved: bool)
        requires
            old(self).wf(),
        ensures
            final(self).wf(),
            final(self).data == old(self).data,
            final(self).grid.collapsed@ == old(self).grid.collapsed@,
            final(self).grid.next_anim_id == old(self).grid.next_anim_id,
            grid_changed_within(
                old(self).grid,
                final(self).grid,
                piece_rows(old(self).selector.current),
            ),
            final(self).state == GameState::Playing ==> piece_fits(
                final(self).grid,
                final(self).selector.current,
            ),
            moved ==> final(self).grid == old(self).grid && final(self).state == old(self).state
                && final(self).data == old(self).data,
            final(self).state == old(self).state || final(self).state == GameState::GameOver,
            moved == piece_fits(
                old(self).grid,
                moved_piece(old(self).selector.current, 1, 0),
            ),
            moved ==> *final(self) == (Game {
                selector: (Selector {
                    current: moved_piece(old(self).selector.current, 1, 0),
                    ..old(self).selector
                }),
                ..*old(self)
            }) && final(events)@ == old(events)@,
            !moved ==> lock_rel(
                *old(self),
                *final(self),
                now,
                final(events)@.skip(old(events)@.len() as int),
            ) && final(events)@.len() == old(events)@.len() + 1,
            final(events)@.take(old(events)@.len() as int) == old(events)@,
    {
        let ghost cur = self.selector.current;
        if !self.try_move(1, 0) {
            self.lock_block(now, events);
            proof {
                lemma_written_rows(old(self).grid, self.grid, cur);
                assert(final(events)@.take(old(events)@.len() as int) =~= old(events)@);
            }
            false
        } else {
            true
        }
    }

    /// The player-driven shifts and rotation of one frame, each through the
    /// attempt/validate/revert protocol. The board, score and state are
    /// untouched; a piece that sat legally still does.
    fn step_input(&mut self, input: &InputState, events: &mut Vec<SoundEvent>)
        requires
            old(self).wf(),
        ensures
            final(self).wf(),
            final(self).grid == old(self).grid,
            final(self).state == old(self).state,
            final(self).data == old(self).data,
            final(self).has_current_changed == old(self).has_current_changed,
            final(self).animation_handler == old(self).animation_handler,
            final(self).selector.next == old(self).selector.next,
            piece_fits(old(self).grid, old(self).selector.current) ==> piece_fits(
                final(self).grid,
                final(self).selector.current,
            ),
            *final(self) == input_outcome(*old(self), *input),
            final(events)@ == old(events)@ + input_events(*old(self), *input),
    {
        let ghost s0 = *old(self);
        let ghost g1 = if input.right {
            shift_outcome(s0, 1)
        } else {
            s0
        };
        let ghost e1 = if input.right {
            shift_events(s0, 1)
        } else {
            Seq::<SoundEvent>::empty()
        };
        if input.right {
            if self.try_move(0, 1) {
                events.push(SoundEvent::MoveSuccess);
            }
        }
        proof {
            assert(*self == g1);
            assert(events@ =~= old(events)@ + e1);
        }
        let ghost g2 = if input.left {
            shift_outcome(g1, -1)
        } else {
            g1
        };
        let ghost e2 = if input.left {
            shift_events(g1, -1)
        } else {
            Seq::<SoundEvent>::empty()
        };
        if input.left {
            if self.try_move(0, -1) {
                events.push(SoundEvent::MoveSuccess);
            }
        }
        proof {
            assert(*self == g2);
            assert(events@ =~= old(events)@ + e1 + e2);
        }
        let ghost g3 = if input.up {
            rotate_outcome(g2)
        } else {
            g2
        };
        let ghost e3 = if input.up {
            rotate_events(g2)
        } else {
            Seq::<SoundEvent>::empty()
        };
        if input.up {
            if self.try_rotate() {
                events.push(SoundEvent::RotateSuccess);
            }
        }
        proof {
            assert(*self == g3);
            assert(events@ =~= old(events)@ + (e1 + e2 + e3));
            assert(input_events(s0, *input) == e1 + e2 + e3);
        }
    }

    /// The soft-drop and gravity phases of one frame — exactly the fall
    /// relation. The board changes only in the rows of the pieces locked
    /// here (at most two), and a piece that sat legally still does unless
    /// these phases ended in the terminal state.
    #[verifier::rlimit(100)]
    fn step_fall(&mut self, down: bool, now: u64, events: &mut Vec<SoundEvent>)
        requires
            old(self).wf(),
        ensures
            final(self).wf(),
            final(self).data.score >= old(self).data.score,
            final(self).data.level >= old(self).data.level,
            final(self).grid.collapsed@ == old(self).grid.collapsed@,
            final(self).grid.next_anim_id == old(self).grid.next_anim_id,
            exists|rows: Seq<int>|
                #[trigger] grid_changed_within(old(self).grid, final(self).grid, rows)
                    && rows.len() <= 8,
            piece_fits(old(self).grid, old(self).selector.current) && final(self).state
                == GameState::Playing && old(self).state == GameState::Playing ==> piece_fits(
                final(self).grid,
                final(self).selector.current,
            ),
            fall_rel(
                *old(self),
                *final(self),
                down,
                now,
                final(events)@.skip(old(events)@.len() as int),
            ),
            final(events)@.take(old(events)@.len() as int) == old(events)@,
            final(events)@.len() >= old(events)@.len(),
    {
        let ghost s0 = *old(self);
        let ghost fit0 = piece_fits(old(self).grid, old(self).selector.current);
        let ghost mut rows1: Seq<int> = Seq::empty();
        if down {
            if !self.has_current_changed {
                proof {
                    rows1 = piece_rows(self.selector.current);
                }
                if self.descend_or_lock(now, events) {
                    self.data.add_to_score(1);
                    proof {
                        assert(*self == (Game {
                            selector: (Selector {
                                current: moved_piece(s0.selector.current, 1, 0),
                                ..s0.selector
                            }),
                            data: (GameData {
                                score: sat_add_u32(s0.data.score, 1),
                                ..s0.data
                            }),
                            ..s0
                        }));
                    }
                }
            }
        } else {
            self.has_current_changed = false;
            proof {
                assert(*self == (Game { has_current_changed: false, ..s0 }));
            }
        }
        let ghost mid = *self;
        let ghost ev2 = events@.skip(old(events)@.len() as int);
        proof {
            assert(events@.take(old(events)@.len() as int) =~= old(events)@);
            assert(events@ =~= old(events)@ + ev2);
            assert(soft_drop_rel(s0, mid, down, now, ev2)) by {
                if down && !s0.has_current_changed {
                    if piece_fits(s0.grid, moved_piece(s0.selector.current, 1, 0)) {
                        assert(ev2 =~= Seq::<SoundEvent>::empty());
                    }
                } else {
                    assert(ev2 =~= Seq::<SoundEvent>::empty());
                }
            }
            assert(grid_changed_within(s0.grid, mid.grid, rows1));
            assert(mid.state == GameState::Playing && s0.state == GameState::Playing && fit0
                ==> piece_fits(mid.grid, mid.selector.current));
        }
        let ghost ev_mid = events@;
        let ghost mut rows2: Seq<int> = Seq::empty();
        let fired = self.data.has_dropped();
        proof {
            assert(fired == gravity_fires(mid));
            assert(*self == tick_gravity(mid));
        }
        let ghost g_tick = *self;
        if fired {
            proof {
                rows2 = piece_rows(self.selector.current);
            }
            if self.descend_or_lock(now, events) {
                proof {
                    assert(*self == (Game {
                        selector: (Selector {
                            current: moved_piece(g_tick.selector.current, 1, 0),
                            ..g_tick.selector
                        }),
                        ..g_tick
                    }));
                }
            }
        }
        let ghost ev3 = events@.skip(ev_mid.len() as int);
        proof {
            assert(events@.take(ev_mid.len() as int) =~= ev_mid);
            assert(events@ =~= ev_mid + ev3);
            assert(gravity_rel(mid, *self, now, ev3)) by {
                if gravity_fires(mid) {
                    if piece_fits(g_tick.grid, moved_piece(g_tick.selector.current, 1, 0)) {
                        assert(ev3 =~= Seq::<SoundEvent>::empty());
                    }
                } else {
                    assert(ev3 =~= Seq::<SoundEvent>::empty());
                }
            }
            assert(grid_changed_within(mid.grid, self.grid, rows2));
            lemma_changed_within_trans(s0.grid, mid.grid, self.grid, rows1, rows2);
            assert(rows1.len() + rows2.len() <= 8);
            let ap = events@.skip(old(events)@.len() as int);
            assert(ap =~= ev2 + ev3);
            assert(fall_rel(s0, *self, down, now, ap));
            assert(events@.take(old(events)@.len() as int) =~= old(events)@);
        }
    }

    /// Input handling and gravity for one frame: left/right shifts, the
    /// soft drop with its lock, the rotation attempt, and the automatic
    /// descent with its lock — exactly the motion relation. The board
    /// changes only in the rows of the pieces locked this frame (at most
    /// two), and a piece that sat legally still does unless the frame ended
    /// in the terminal state.
    #[verifier::rlimit(100)]
    fn step_motion(&mut self, input: &InputState, now: u64, events: &mut Vec<SoundEvent>)
        requires
            old(self).wf(),
        ensures
            final(self).wf(),
            final(self).data.score >= old(self).data.score,
            final(self).data.level >= old(self).data.level,
            final(self).grid.collapsed@ == old(self).grid.collapsed@,
            final(self).grid.next_anim_id == old(self).grid.next_anim_id,
            exists|rows: Seq<int>|
                #[trigger] grid_changed_within(old(self).grid, final(self).grid, rows)
                    && rows.len() <= 8,
            piece_fits(old(self).grid, old(self).selector.current) && final(self).state
                == GameState::Playing && old(self).state == GameState::Playing ==> piece_fits(
                final(self).grid,
                final(self).selector.current,
            ),
            motion_rel(
                *old(self),
                *final(self),
                *input,
                now,
                final(events)@.skip(old(events)@.len() as int),
            ),
            final(events)@.take(old(events)@.len() as int) == old(events)@,
    {
        let ghost s0 = *old(self);
        self.step_input(input, events);
        let ghost g_in = *self;
        let ghost ev_in = events@;
        self.step_fall(input.down, now, events);
        proof {
            let evf = events@.skip(ev_in.len() as int);
            assert(events@.take(ev_in.len() as int) =~= ev_in);
            assert(fall_rel(g_in, *self, input.down, now, evf));
            let ap = events@.skip(old(events)@.len() as int);
            assert(events@ =~= old(events)@ + (input_events(s0, *input) + evf)) by {
                assert(ev_in == old(events)@ + input_events(s0, *input));
                assert(events@ =~= events@.take(ev_in.len() as int) + events@.skip(
                    ev_in.len() as int,
                ));
                assert(events@ =~= ev_in + evf);
            }
            assert(ap =~= input_events(s0, *input) + evf);
            assert(motion_rel(s0, *self, *input, now, ap));
            assert(events@.take(old(events)@.len() as int) =~= old(events)@);
        }
    }

    /// One frame while play goes on, in the fixed order: input handling
    /// (left/right shifts, soft drop, rotation), gravity, locking, the
    /// atomic line clear, scoring, and the landing-preview recompute. The
    /// returned events are the frame's audio cues. Score and level never
    /// decrease, and after the clear pass the board holds no complete row.
    /// A legally sitting piece stays legal (it is moved only with the
    /// attempt/validate/revert protocol, and a lock spawns a fitting piece
    /// or ends the game), unless a clear shifted the rows under it; and the
    /// preview piece comes to rest on the lowest legal row below the
    /// current piece's column and orientation.
    #[verifier::rlimit(100)]
    pub fn update(&mut self, input: &InputState, now: u64) -> (events: Vec<SoundEvent>)
        requires
            old(self).wf(),
            old(self).state == GameState::Playing,
            no_complete_rows(old(self).grid),
        ensures
            final(self).wf(),
            no_complete_rows(final(self).grid),
            final(self).data.score >= old(self).data.score,
            final(self).data.level >= old(self).data.level,
            piece_fits(old(self).grid, old(self).selector.current) && final(self).state
                == GameState::Playing && final(self).grid.collapsed@.len() == old(
                self,
            ).grid.collapsed@.len() ==> piece_fits(final(self).grid, final(self).selector.current),
            piece_fits(final(self).grid, final(self).selector.current) ==> {
                let g = final(self).selector.ghost_piece;
                let cp = final(self).selector.current;
                &&& piece_fits(final(self).grid, g)
                &&& !piece_fits(
                    final(self).grid,
                    (Tetromino {
                        _type: g._type,
                        rotation: g.rotation,
                        offset: (Vec2 { row: (g.offset.row + 1) as i32, col: g.offset.col }),
                    }),
                )
                &&& g._type == cp._type
                &&& g.rotation == cp.rotation
                &&& g.offset.col == cp.offset.col
            },
            frame_rel(*old(self), *final(self), *input, now, events@),
    {
        let mut events: Vec<SoundEvent> = Vec::new();
        self.step_motion(input, now, &mut events);
        proof {
            let rows = choose|rows: Seq<int>|
                #[trigger] grid_changed_within(old(self).grid, self.grid, rows) && rows.len() <= 8;
            assert forall|i: int|
                0 <= i < NUM_ROWS && !rows.contains(i) implies #[trigger] self.grid.grid_seq()[i]
                == old(self).grid.grid_seq()[i] by {
                assert forall|c: int|
                    0 <= c < NUM_COLS implies #[trigger] self.grid.grid_seq()[i][c] == old(
                    self,
                ).grid.grid_seq()[i][c] by {
                    assert(self.grid.cell(i, c) == old(self).grid.cell(i, c));
                }
                assert(self.grid.grid_seq()[i] =~= old(self).grid.grid_seq()[i]);
            }
            crate::grid::lemma_complete_count_bound(
                old(self).grid.grid_seq(),
                self.grid.grid_seq(),
                rows,
            );
        }
        let ghost pre_clear = *self;
        let ghost evm = events@;
        proof {
            assert(motion_rel(*old(self), pre_clear, *input, now, evm)) by {
                assert(evm.skip(0) =~= evm);
            }
        }
        let cleared = self.grid.check_complete(&mut self.animation_handler, now);
        self.data.inc_score(cleared, &mut events);
        let ghost g3 = *self;
        let ghost evc = events@.skip(evm.len() as int);
        proof {
            assert(clear_phase_rel(pre_clear, g3, now, evc)) by {
                assert(evc =~= spec_score_events(pre_clear.data, cleared as int));
            }
            crate::grid::lemma_clear_leaves_no_complete_row(
                pre_clear.grid.grid_seq(),
                self.grid.grid_seq(),
                cleared as nat,
            );
            if cleared == 0 {
                crate::grid::lemma_incomplete_rows_all(pre_clear.grid.grid_seq());
                assert(self.grid.grid_seq() =~= pre_clear.grid.grid_seq());
                assert forall|r: int, c: int|
                    0 <= r < NUM_ROWS && 0 <= c < NUM_COLS implies #[trigger] self.grid.cell(r, c)
                    == pre_clear.grid.cell(r, c) by {
                    assert(self.grid.grid_seq()[r] == pre_clear.grid.grid_seq()[r]);
                    assert(self.grid.grid_seq()[r][c] == self.grid.cell(r, c));
                    assert(pre_clear.grid.grid_seq()[r][c] == pre_clear.grid.cell(r, c));
                }
            }
        }
        self.recompute_ghost();
        proof {
            assert(ghost_rel(g3, *self)) by {
                assert(*self == (Game {
                    selector: (Selector {
                        ghost_piece: self.selector.ghost_piece,
                        ..g3.selector
                    }),
                    ..g3
                }));
            }
            assert(events@ =~= evm + evc);
            assert(frame_rel(*old(self), *self, *input, now, events@));
        }
        events
    }

    /// Projects the landing preview: the ghost piece takes the current
    /// piece's orientation and column and descends to the lowest row where
    /// it still sits legally. When the current piece itself does not sit
    /// legally, the preview simply mirrors it one row up from where the
    /// descent stopped.
    fn recompute_ghost(&mut self)
        requires
            old(self).grid.wf(),
            old(self).selector.current.wf(),
            piece_in_bounds(old(self).selector.current),
        ensures
            final(self).grid == old(self).grid,
            final(self).state == old(self).state,
            final(self).data == old(self).data,
            final(self).has_current_changed == old(self).has_current_changed,
            final(self).animation_handler == old(self).animation_handler,
            final(self).selector.choices == old(self).selector.choices,
            final(self).selector.current == old(self).selector.current,
            final(self).selector.next == old(self).selector.next,
            final(self).selector.ghost_piece.wf(),
            final(self).selector.ghost_piece._type == old(self).selector.current._type,
            piece_fits(old(self).grid, old(self).selector.current) ==> {
                let g = final(self).selector.ghost_piece;
                let cp = old(self).selector.current;
                &&& piece_fits(final(self).grid, g)
                &&& !piece_fits(
                    final(self).grid,
                    (Tetromino {
                        _type: g._type,
                        rotation: g.rotation,
                        offset: (Vec2 { row: (g.offset.row + 1) as i32, col: g.offset.col }),
                    }),
                )
                &&& g.rotation == cp.rotation
                &&& g.offset.col == cp.offset.col
            },
    {
        self.selector.ghost_piece = self.selector.current;
        let ghost cp = self.selector.current;
        let ghost pg = *self;
        let ghost r0 = self.selector.current.offset.row as int;
        proof {
            lemma_in_bounds_offset(cp);
        }
        while self.is_ghost_inside()
            invariant
                *self == (Game {
                    selector: (Selector {
                        ghost_piece: self.selector.ghost_piece,
                        ..pg.selector
                    }),
                    ..pg
                }),
                self.grid.wf(),
                cp == self.selector.current,
                self.selector.ghost_piece.wf(),
                self.selector.ghost_piece._type == cp._type,
                self.selector.ghost_piece.rotation == cp.rotation,
                self.selector.ghost_piece.offset.col == cp.offset.col,
                r0 == cp.offset.row,
                -3 <= r0 <= 19,
                r0 <= self.selector.ghost_piece.offset.row <= 20,
                self.selector.ghost_piece.offset.row > r0 ==> piece_fits(
                    self.grid,
                    (Tetromino {
                        _type: cp._type,
                        rotation: cp.rotation,
                        offset: (Vec2 {
                            row: (self.selector.ghost_piece.offset.row - 1) as i32,
                            col: cp.offset.col,
                        }),
                    }),
                ),
            decreases 21 - self.selector.ghost_piece.offset.row,
        {
            proof {
                lemma_in_bounds_offset(self.selector.ghost_piece);
            }
            self.selector.ghost_piece.move_pos(Vec2::new(1, 0));
        }
        let ghost g_end = self.selector.ghost_piece;
        self.selector.ghost_piece.move_pos(Vec2::new(-1, 0));
        proof {
            if piece_fits(self.grid, cp) {
                assert(g_end.offset.row > r0) by {
                    if g_end.offset.row == r0 {
                        assert(g_end == cp);
                    }
                }
                assert(self.selector.ghost_piece == (Tetromino {
                    _type: cp._type,
                    rotation: cp.rotation,
                    offset: (Vec2 { row: (g_end.offset.row - 1) as i32, col: cp.offset.col }),
                }));
                assert(piece_fits(self.grid, self.selector.ghost_piece));
                assert((Tetromino {
                    _type: self.selector.ghost_piece._type,
                    rotation: self.selector.ghost_piece.rotation,
                    offset: (Vec2 {
                        row: (self.selector.ghost_piece.offset.row + 1) as i32,
                        col: self.selector.ghost_piece.offset.col,
                    }),
                }) == g_end);
            }
        }
    }
}


/// The board rows a locked piece writes into.
pub open spec fn piece_rows(tet: Tetromino) -> Seq<int> {
    Seq::new(4, |i: int| tet.cells()[i].0)
}

/// Cells of `g2` that differ from `g1` lie in the listed rows.
pub open spec fn grid_changed_within(g1: Grid, g2: Grid, rows: Seq<int>) -> bool {
    forall|r: int, c: int|
        0 <= r < NUM_ROWS && 0 <= c < NUM_COLS && #[trigger] g2.cell(r, c) != g1.cell(r, c)
            ==> rows.contains(r)
}

/// Changed-row sets compose across two successive board updates.
proof fn lemma_changed_within_trans(g1: Grid, g2: Grid, g3: Grid, r1: Seq<int>, r2: Seq<int>)
    requires
        grid_changed_within(g1, g2, r1),
        grid_changed_within(g2, g3, r2),
    ensures
        grid_changed_within(g1, g3, r1 + r2),
{
    assert forall|r: int, c: int|
        0 <= r < NUM_ROWS && 0 <= c < NUM_COLS && #[trigger] g3.cell(r, c) != g1.cell(
            r,
            c,
        ) implies (r1 + r2).contains(r) by {
        if g3.cell(r, c) != g2.cell(r, c) {
            assert(r2.contains(r));
            let k = choose|k: int| 0 <= k < r2.len() && r2[k] == r;
            assert((r1 + r2)[r1.len() + k] == r);
        } else {
            assert(r1.contains(r));
            let k = choose|k: int| 0 <= k < r1.len() && r1[k] == r;
            assert((r1 + r2)[k] == r);
        }
    }
}

/// A lock changes the board only in the locked piece's rows.
proof fn lemma_written_rows(g1: Grid, g2: Grid, tet: Tetromino)
    requires
        forall|r: int, c: int|
            0 <= r < NUM_ROWS && 0 <= c < NUM_COLS ==> #[trigger] g2.cell(r, c) == (if tet.cells()
                .contains((r, c)) {
                Some(tet._type)
            } else {
                g1.cell(r, c)
            }),
    ensures
        grid_changed_within(g1, g2, piece_rows(tet)),
{
    assert forall|r: int, c: int|
        0 <= r < NUM_ROWS && 0 <= c < NUM_COLS && #[trigger] g2.cell(r, c) != g1.cell(
            r,
            c,
        ) implies piece_rows(tet).contains(r) by {
        assert(tet.cells().contains((r, c)));
        let k = choose|k: int| 0 <= k < tet.cells().len() && tet.cells()[k] == (r, c);
        assert(piece_rows(tet)[k] == r);
    }
}

} // verus!
