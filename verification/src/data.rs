//! Plain data carried between the core's components: board positions, the
//! play/game-over state, the sound events the core emits, the input signals
//! it consumes, and the score/level bookkeeping.

use vstd::prelude::*;

verus! {

/// A board position or displacement, in whole cells.
/// `row` grows downward, `col` to the right.
#[derive(Clone, Copy, Debug, PartialEq, Eq, Structural)]
pub struct Vec2 {
    pub row: i32,
    pub col: i32,
}

impl Vec2 {
    pub fn new(row: i32, col: i32) -> (v: Vec2)
        ensures
            v.row == row,
            v.col == col,
    {
        Vec2 { row, col }
    }
}

/// Whether the session is still interactive or has reached the terminal state.
#[derive(Clone, Copy, Debug, PartialEq, Eq, Structural)]
pub enum GameState {
    Playing,
    GameOver,
}

impl Default for GameState {
    fn default() -> (s: GameState)
        ensures
            s == GameState::Playing,
    {
        GameState::Playing
    }
}

/// Discrete audio cues emitted by the core; the outer layer maps each to a
/// sound resource.
#[derive(Clone, Copy, Debug, PartialEq, Eq, Structural)]
pub enum SoundEvent {
    GameOver,
    LevelUp,
    RotateSuccess,
    MoveSuccess,
    PieceLocked,
    ClearSingle,
    ClearDouble,
    ClearTriple,
    ClearTetris,
}

/// The directional signals polled once per frame by the outer layer.
/// `left`, `right` and `up` are press edges; `down` is the held state.
#[derive(Clone, Copy, Debug, PartialEq, Eq, Structural)]
pub struct InputState {
    pub left: bool,
    pub right: bool,
    pub down: bool,
    pub up: bool,
}

/// Score, level, the gravity frame counter and the lines-collected counter.
pub struct GameData {
    pub level: u8,
    pub score: u32,
    pub frames_since_last_fall: u16,
    pub collected: u16,
}

/// Frames between two automatic descents, as a step function of the level.
pub open spec fn spec_frames_per_drop(level: u8) -> u16 {
    if level == 0 {
        48
    } else if level == 1 {
        43
    } else if level == 2 {
        38
    } else if level == 3 {
        33
    } else if level == 4 {
        28
    } else if level == 5 {
        23
    } else if level == 6 {
        18
    } else if level == 7 {
        13
    } else if level == 8 {
        8
    } else if level == 9 {
        6
    } else if level <= 12 {
        5
    } else if level <= 15 {
        4
    } else if level <= 18 {
        3
    } else if level <= 28 {
        2
    } else {
        1
    }
}

/// Points awarded for locking a piece that completes `n` rows at `level`.
pub open spec fn spec_clear_score(n: int, level: u8) -> int {
    (if n == 0 {
        0int
    } else if n == 1 {
        40int
    } else if n == 2 {
        100int
    } else if n == 3 {
        300int
    } else {
        1200int
    }) * (level + 1)
}

impl Default for GameData {
    /// A fresh session: level 0, no points, and the collected counter one
    /// line short of the first level-up threshold.
    fn default() -> (d: GameData)
        ensures
            d.level == 0,
            d.score == 0,
            d.frames_since_last_fall == 0,
            d.collected == 9,
            d.wf(),
    {
        GameData { level: 0, score: 0, frames_since_last_fall: 0, collected: 9 }
    }
}

/// The level-up cue emitted while booking a clear that pushes the collected
/// counter to the threshold, at a level below the cap.
pub open spec fn spec_level_events(collected_after: int, level: u8) -> Seq<SoundEvent> {
    if collected_after >= 10 && level < 29 {
        seq![SoundEvent::LevelUp]
    } else {
        Seq::empty()
    }
}

/// `a + b` clamped to the top of the `u32` range.
pub open spec fn sat_add_u32(a: u32, b: int) -> u32 {
    if a + b <= u32::MAX {
        (a + b) as u32
    } else {
        u32::MAX
    }
}

/// What booking `n` cleared rows does to the counters: lines accumulate
/// toward the threshold with carry, the level rises once below its cap, and
/// the scoring-table award (at the pre-raise level) is added.
pub open spec fn spec_inc_score(d: GameData, n: int) -> GameData {
    let c = d.collected + n;
    GameData {
        level: if c >= 10 && d.level < 29 {
            (d.level + 1) as u8
        } else {
            d.level
        },
        score: sat_add_u32(d.score, spec_clear_score(n, d.level)),
        frames_since_last_fall: d.frames_since_last_fall,
        collected: if c >= 10 {
            (c - 10) as u16
        } else {
            c as u16
        },
    }
}

/// The cues booking `n` cleared rows emits, in order.
pub open spec fn spec_score_events(d: GameData, n: int) -> Seq<SoundEvent> {
    spec_level_events(d.collected + n, d.level) + spec_clear_events(n)
}

/// The clear cue emitted for `n` simultaneously completed rows.
pub open spec fn spec_clear_events(n: int) -> Seq<SoundEvent> {
    if n == 0 {
        Seq::empty()
    } else if n == 1 {
        seq![SoundEvent::ClearSingle]
    } else if n == 2 {
        seq![SoundEvent::ClearDouble]
    } else if n == 3 {
        seq![SoundEvent::ClearTriple]
    } else {
        seq![SoundEvent::ClearTetris]
    }
}

impl GameData {
    /// The counters stay in the range the scoring rules keep them in: the
    /// level is clamped to 29 and the lines-collected counter is always
    /// strictly below the level-up threshold between calls.
    pub open spec fn wf(&self) -> bool {
        &&& self.level <= 29
        &&& self.collected <= 9
    }

    pub fn frames_per_drop(&self) -> (r: u16)
        ensures
            r == spec_frames_per_drop(self.level),
            1 <= r <= 48,
    {
        let lvl = self.level;
        if lvl == 0 {
            48
        } else if lvl == 1 {
            43
        } else if lvl == 2 {
            38
        } else if lvl == 3 {
            33
        } else if lvl == 4 {
            28
        } else if lvl == 5 {
            23
        } else if lvl == 6 {
            18
        } else if lvl == 7 {
            13
        } else if lvl == 8 {
            8
        } else if lvl == 9 {
            6
        } else if lvl <= 12 {
            5
        } else if lvl <= 15 {
            4
        } else if lvl <= 18 {
            3
        } else if lvl <= 28 {
            2
        } else {
            1
        }
    }

    /// Advances the gravity frame counter; reports (and resets on) reaching
    /// the cadence threshold for the current level.
    pub fn has_dropped(&mut self) -> (dropped: bool)
        ensures
            final(self).level == old(self).level,
            final(self).score == old(self).score,
            final(self).collected == old(self).collected,
            dropped == (old(self).frames_since_last_fall >= spec_frames_per_drop(
                old(self).level,
            )),
            dropped ==> final(self).frames_since_last_fall == 0,
            !dropped ==> final(self).frames_since_last_fall == old(self).frames_since_last_fall
                + 1,
    {
        if self.frames_since_last_fall >= self.frames_per_drop() {
            self.frames_since_last_fall = 0;
            true
        } else {
            self.frames_since_last_fall = self.frames_since_last_fall + 1;
            false
        }
    }

    /// Consumes ten collected lines and raises the level unless it already
    /// sits at the cap; a raise emits a level-up cue.
    pub fn inc_level(&mut self, events: &mut Vec<SoundEvent>)
        requires
            old(self).collected >= 10,
        ensures
            final(self).collected == old(self).collected - 10,
            final(self).score == old(self).score,
            final(self).frames_since_last_fall == old(self).frames_since_last_fall,
            old(self).level < 29 ==> {
                &&& final(self).level == old(self).level + 1
                &&& final(events)@ == old(events)@.push(SoundEvent::LevelUp)
            },
            old(self).level >= 29 ==> {
                &&& final(self).level == old(self).level
                &&& final(events)@ == old(events)@
            },
    {
        self.collected = self.collected - 10;
        if self.level < 29 {
            self.level = self.level + 1;
            events.push(SoundEvent::LevelUp);
        }
    }

    /// Books `n` simultaneously cleared rows: accumulates them toward the
    /// next level, levels up once the threshold is reached, and awards the
    /// scoring-table points for `n` at the level held when the piece locked.
    pub fn inc_score(&mut self, n: usize, events: &mut Vec<SoundEvent>)
        requires
            old(self).wf(),
            n <= 10,
        ensures
            final(self).wf(),
            final(self).frames_since_last_fall == old(self).frames_since_last_fall,
            old(self).collected + n >= 10 ==> {
                &&& final(self).collected == old(self).collected + n - 10
                &&& (old(self).level < 29 ==> final(self).level == old(self).level + 1)
                &&& (old(self).level >= 29 ==> final(self).level == old(self).level)
            },
            old(self).collected + n < 10 ==> {
                &&& final(self).collected == old(self).collected + n
                &&& final(self).level == old(self).level
            },
            old(self).score + spec_clear_score(n as int, old(self).level) <= u32::MAX
                ==> final(self).score == old(self).score + spec_clear_score(
                n as int,
                old(self).level,
            ),
            old(self).score + spec_clear_score(n as int, old(self).level) > u32::MAX
                ==> final(self).score == u32::MAX,
            final(events)@ == old(events)@ + spec_level_events(
                old(self).collected + n as int,
                old(self).level,
            ) + spec_clear_events(n as int),
            *final(self) == spec_inc_score(*old(self), n as int),
            final(events)@ == old(events)@ + spec_score_events(*old(self), n as int),
    {
        let k: u32 = (self.level + 1) as u32;
        self.collected = self.collected + (n as u16);
        if self.collected >= 10 {
            self.inc_level(events);
        }
        let pts: u32 = if n == 0 {
            0
        } else if n == 1 {
            events.push(SoundEvent::ClearSingle);
            40 * k
        } else if n == 2 {
            events.push(SoundEvent::ClearDouble);
            100 * k
        } else if n == 3 {
            events.push(SoundEvent::ClearTriple);
            300 * k
        } else {
            events.push(SoundEvent::ClearTetris);
            1200 * k
        };
        self.add_to_score(pts);
    }

    /// Adds points, saturating at the top of the score range.
    pub fn add_to_score(&mut self, score: u32)
        ensures
            final(self).level == old(self).level,
            final(self).collected == old(self).collected,
            final(self).frames_since_last_fall == old(self).frames_since_last_fall,
            old(self).score + score <= u32::MAX ==> final(self).score == old(self).score + score,
            old(self).score + score > u32::MAX ==> final(self).score == u32::MAX,
    {
        if self.score <= u32::MAX - score {
            self.score = self.score + score;
        } else {
            self.score = u32::MAX;
        }
    }
}

} // verus!
