//! The animation regulator: maps a numeric identifier to a timer record
//! (duration, start time) and derives normalized progress values from an
//! explicitly supplied clock reading.
//!
//! Times are in milliseconds; progress is a scaled integer in
//! `0 ..= RATIO_ONE`. An identifier without a timer reads as fully elapsed.

use vstd::prelude::*;

use crate::constants::{MAX_ANIM_DURATION, RATIO_ONE};

verus! {

/// One timer: its identifier, its duration and the clock reading at which it
/// was started.
#[derive(Clone, Copy, Debug, PartialEq, Eq, Structural)]
pub struct AnimEntry {
    pub id: u16,
    pub duration: u64,
    pub start: u64,
}

/// Timers keyed by identifier, at most one per identifier.
pub struct AnimationRegulator {
    pub entries: Vec<AnimEntry>,
}

/// The one-shot completion ramp: 0 at the start, RATIO_ONE once `duration`
/// has elapsed, climbing proportionally in between. A missing timer reads
/// as RATIO_ONE.
pub open spec fn spec_ratio(duration: u64, start: u64, now: u64) -> int {
    if now <= start {
        0
    } else if now - start >= duration {
        RATIO_ONE as int
    } else {
        (now - start) * (RATIO_ONE as int) / (duration as int)
    }
}

/// The triangular blink waveform: climbs 0 to RATIO_ONE over one duration,
/// falls back over the next, and repeats.
pub open spec fn spec_blink(duration: u64, start: u64, now: u64) -> int {
    let e = if now <= start {
        0int
    } else {
        now - start
    };
    let d = duration as int;
    if (e / d) % 2 == 0 {
        (e % d) * (RATIO_ONE as int) / d
    } else {
        (RATIO_ONE as int) - (e % d) * (RATIO_ONE as int) / d
    }
}

impl AnimationRegulator {
    /// Identifiers are unique and every duration is positive and small
    /// enough for the fixed-point arithmetic.
    pub open spec fn wf(&self) -> bool {
        &&& forall|i: int, j: int|
            0 <= i < j < self.entries@.len() ==> self.entries@[i].id != self.entries@[j].id
        &&& forall|i: int|
            0 <= i < self.entries@.len() ==> 1 <= (#[trigger] self.entries@[i]).duration
                <= MAX_ANIM_DURATION
    }

    /// Whether a timer exists for `id`.
    pub open spec fn has_timer(&self, id: u16) -> bool {
        exists|i: int| 0 <= i < self.entries@.len() && self.entries@[i].id == id
    }

    /// The (duration, start) pair of the timer for `id`.
    pub open spec fn timer(&self, id: u16) -> (u64, u64) {
        let i = choose|i: int| 0 <= i < self.entries@.len() && self.entries@[i].id == id;
        (self.entries@[i].duration, self.entries@[i].start)
    }

    /// The progress the completion ramp reads for `id` at clock `now`.
    pub open spec fn ratio_at(&self, id: u16, now: u64) -> int {
        if self.has_timer(id) {
            spec_ratio(self.timer(id).0, self.timer(id).1, now)
        } else {
            RATIO_ONE as int
        }
    }

    /// The value the blink waveform reads for `id` at clock `now`.
    pub open spec fn blink_at(&self, id: u16, now: u64) -> int {
        if self.has_timer(id) {
            spec_blink(self.timer(id).0, self.timer(id).1, now)
        } else {
            RATIO_ONE as int
        }
    }

    /// Finds the position of the timer for `id`, if any.
    fn find(&self, id: u16) -> (r: Option<usize>)
        requires
            self.wf(),
        ensures
            match r {
                Some(i) => i < self.entries@.len() && self.entries@[i as int].id == id
                    && self.has_timer(id),
                None => !self.has_timer(id),
            },
    {
        let mut i: usize = 0;
        while i < self.entries.len()
            invariant
                i <= self.entries@.len(),
                forall|k: int| 0 <= k < i ==> self.entries@[k].id != id,
            decreases self.entries@.len() - i,
        {
            if self.entries[i].id == id {
                return Some(i);
            }
            i = i + 1;
        }
        None
    }

    /// Discards the timer for `id`; later queries for it read fully elapsed.
    pub fn remove_animation(&mut self, id: u16)
        requires
            old(self).wf(),
        ensures
            final(self).wf(),
            !final(self).has_timer(id),
            forall|j: u16|
                j != id ==> #[trigger] final(self).has_timer(j) == old(self).has_timer(j),
            forall|j: u16|
                j != id && old(self).has_timer(j) ==> #[trigger] final(self).timer(j)
                    == old(self).timer(j),
    {
        let found = self.find(id);
        match found {
            Some(i) => {
                self.entries.remove(i);
                proof {
                    let olds = old(self).entries@;
                    let news = self.entries@;
                    assert forall|j: u16|
                        j != id implies #[trigger] final(self).has_timer(j)
                        == old(self).has_timer(j) by {
                        if old(self).has_timer(j) {
                            let k = choose|k: int| 0 <= k < olds.len() && olds[k].id == j;
                            if k < i {
                                assert(news[k].id == j);
                            } else {
                                assert(news[k - 1].id == j);
                            }
                        }
                        if final(self).has_timer(j) {
                            let m = choose|m: int| 0 <= m < news.len() && news[m].id == j;
                            if m < i {
                                assert(olds[m].id == j);
                            } else {
                                assert(olds[m + 1].id == j);
                            }
                        }
                    }
                    assert forall|j: u16|
                        j != id && old(self).has_timer(j) implies #[trigger] final(self).timer(j)
                        == old(self).timer(j) by {
                        let k = choose|k: int| 0 <= k < olds.len() && olds[k].id == j;
                        if k < i {
                            assert(news[k].id == j);
                        } else {
                            assert(news[k - 1].id == j);
                        }
                        let m = choose|m: int| 0 <= m < news.len() && news[m].id == j;
                        let m_old: int = if m < i {
                            m
                        } else {
                            m + 1
                        };
                        assert(olds[m_old] == news[m]);
                        assert(olds[m_old].id == olds[k].id);
                        assert(m_old == k);
                    }
                    assert(!final(self).has_timer(id)) by {
                        if final(self).has_timer(id) {
                            let m = choose|m: int| 0 <= m < news.len() && news[m].id == id;
                            let m_old: int = if m < i {
                                m
                            } else {
                                m + 1
                            };
                            assert(olds[m_old] == news[m]);
                        }
                    }
                }
            },
            None => {},
        }
    }

    /// (Re)starts the timer for `id` with the supplied clock reading as its
    /// start, overwriting any prior timer for that identifier.
    pub fn reset_animation(&mut self, id: u16, duration: u64, now: u64)
        requires
            old(self).wf(),
            1 <= duration <= MAX_ANIM_DURATION,
        ensures
            final(self).wf(),
            final(self).has_timer(id),
            final(self).timer(id) == (duration, now),
            forall|j: u16|
                j != id ==> #[trigger] final(self).has_timer(j) == old(self).has_timer(j),
            forall|j: u16|
                j != id && old(self).has_timer(j) ==> #[trigger] final(self).timer(j)
                    == old(self).timer(j),
    {
        self.remove_animation(id);
        let ghost mid = *self;
        self.entries.push(AnimEntry { id, duration, start: now });
        proof {
            let mids = mid.entries@;
            let news = self.entries@;
            let n = news.len() as int;
            assert(news == mids.push(AnimEntry { id, duration, start: now }));
            assert(news[n - 1].id == id);
            assert(final(self).wf()) by {
                assert forall|a: int, b: int|
                    0 <= a < b < n implies news[a].id != news[b].id by {
                    if b < n - 1 {
                        assert(news[a] == mids[a] && news[b] == mids[b]);
                    } else {
                        assert(news[a] == mids[a]);
                        assert(!mid.has_timer(id));
                        assert(mids[a].id != id);
                    }
                }
            }
            assert forall|j: u16|
                j != id implies #[trigger] final(self).has_timer(j) == old(self).has_timer(j) by {
                if mid.has_timer(j) {
                    let m = choose|m: int| 0 <= m < mids.len() && mids[m].id == j;
                    assert(news[m].id == j);
                }
                if final(self).has_timer(j) {
                    let m = choose|m: int| 0 <= m < news.len() && news[m].id == j;
                    assert(m < n - 1);
                    assert(mids[m].id == j);
                }
            }
            assert forall|j: u16|
                j != id && old(self).has_timer(j) implies #[trigger] final(self).timer(j)
                == old(self).timer(j) by {
                assert(mid.has_timer(j) && mid.timer(j) == old(self).timer(j));
                let k = choose|k: int| 0 <= k < mids.len() && mids[k].id == j;
                assert(news[k].id == j);
                let m = choose|m: int| 0 <= m < news.len() && news[m].id == j;
                assert(m < n - 1);
                assert(news[m] == mids[m]);
                assert(mids[m].id == mids[k].id);
                assert(m == k);
                assert(final(self).timer(j) == mid.timer(j));
            }
            assert(final(self).timer(id) == (duration, now)) by {
                let m = choose|m: int| 0 <= m < news.len() && news[m].id == id;
                if m < n - 1 {
                    assert(mids[m].id == id);
                    assert(mid.has_timer(id));
                }
            }
        }
    }

    /// The completion ramp for `id` at clock `now`: RATIO_ONE when no timer
    /// exists, otherwise elapsed time over duration, clamped.
    pub fn animation_completed_ratio(&self, id: u16, now: u64) -> (r: u32)
        requires
            self.wf(),
        ensures
            r == self.ratio_at(id, now),
            r <= RATIO_ONE,
    {
        let found = self.find(id);
        match found {
            Some(i) => {
                let duration = self.entries[i].duration;
                let start = self.entries[i].start;
                proof {
                    assert(self.timer(id) == (duration, start)) by {
                        let m = choose|m: int|
                            0 <= m < self.entries@.len() && self.entries@[m].id == id;
                        assert(self.entries@[m].id == self.entries@[i as int].id);
                        if m != i as int {
                            assert(false);
                        }
                    }
                }
                if now <= start {
                    0
                } else if now - start >= duration {
                    RATIO_ONE
                } else {
                    let elapsed = now - start;
                    proof {
                        assert(elapsed * (RATIO_ONE as int) < duration * (RATIO_ONE as int)) by (
                        nonlinear_arith)
                            requires
                                elapsed < duration,
                                duration >= 1,
                        ;
                        assert(elapsed * (RATIO_ONE as int) / (duration as int) < RATIO_ONE as int)
                            by (nonlinear_arith)
                            requires
                                elapsed * (RATIO_ONE as int) < duration * (RATIO_ONE as int),
                                duration >= 1,
                        ;
                        assert(elapsed * (RATIO_ONE as int) / (duration as int) >= 0) by (
                        nonlinear_arith)
                            requires
                                elapsed >= 0,
                                duration >= 1,
                        ;
                    }
                    ((elapsed * (RATIO_ONE as u64)) / duration) as u32
                }
            },
            None => RATIO_ONE,
        }
    }

    /// The blink waveform for `id` at clock `now`: RATIO_ONE when no timer
    /// exists, otherwise a triangular wave with period twice the duration.
    pub fn as_blink(&self, id: u16, now: u64) -> (r: u32)
        requires
            self.wf(),
        ensures
            r == self.blink_at(id, now),
            r <= RATIO_ONE,
    {
        let found = self.find(id);
        match found {
            Some(i) => {
                let duration = self.entries[i].duration;
                let start = self.entries[i].start;
                proof {
                    assert(self.timer(id) == (duration, start)) by {
                        let m = choose|m: int|
                            0 <= m < self.entries@.len() && self.entries@[m].id == id;
                        assert(self.entries@[m].id == self.entries@[i as int].id);
                        if m != i as int {
                            assert(false);
                        }
                    }
                }
                let e: u64 = if now <= start {
                    0
                } else {
                    now - start
                };
                let f: u64 = e % duration;
                proof {
                    assert(f * (RATIO_ONE as int) < duration * (RATIO_ONE as int)) by (
                    nonlinear_arith)
                        requires
                            f < duration,
                            duration >= 1,
                    ;
                    assert(0 <= f * (RATIO_ONE as int) / (duration as int) < RATIO_ONE as int) by (
                    nonlinear_arith)
                        requires
                            f * (RATIO_ONE as int) < duration * (RATIO_ONE as int),
                            f >= 0,
                            duration >= 1,
                    ;
                }
                let scaled: u64 = (f * (RATIO_ONE as u64)) / duration;
                if (e / duration) % 2 == 0 {
                    scaled as u32
                } else {
                    RATIO_ONE - (scaled as u32)
                }
            },
            None => RATIO_ONE,
        }
    }
}

/// The completion ramp's lifecycle: a timer freshly started at `now1` reads
/// 0 at `now1`; once its full duration has elapsed it reads RATIO_ONE; an
/// identifier without a timer reads RATIO_ONE; and the ramp never decreases
/// as the clock advances.
pub proof fn lemma_completion_ratio_lifecycle(
    reg: AnimationRegulator,
    id: u16,
    now1: u64,
    now2: u64,
)
    requires
        reg.wf(),
        now1 <= now2,
    ensures
        reg.has_timer(id) && reg.timer(id).1 == now1 ==> reg.ratio_at(id, now1) == 0,
        reg.has_timer(id) && now2 >= reg.timer(id).1 + reg.timer(id).0 ==> reg.ratio_at(id, now2)
            == RATIO_ONE,
        !reg.has_timer(id) ==> reg.ratio_at(id, now1) == RATIO_ONE,
        0 <= reg.ratio_at(id, now1) <= RATIO_ONE,
        reg.ratio_at(id, now1) <= reg.ratio_at(id, now2),
{
    if reg.has_timer(id) {
        let d = reg.timer(id).0 as int;
        let s = reg.timer(id).1 as int;
        assert(1 <= d) by {
            let i = choose|i: int| 0 <= i < reg.entries@.len() && reg.entries@[i].id == id;
            assert(1 <= reg.entries@[i].duration);
        }
        let one = RATIO_ONE as int;
        lemma_ramp_range(d, s, now1 as int);
        lemma_ramp_range(d, s, now2 as int);
        if s < now1 && now1 - s < d && s < now2 && now2 - s < d {
            assert((now1 - s) * one <= (now2 - s) * one) by (nonlinear_arith)
                requires
                    now1 <= now2,
                    s < now1,
                    one >= 0,
            ;
            vstd::arithmetic::div_mod::lemma_div_is_ordered((now1 - s) * one, (now2 - s) * one, d);
        }
    }
}

/// One point of the ramp always lies between 0 and RATIO_ONE.
proof fn lemma_ramp_range(d: int, s: int, now: int)
    requires
        1 <= d,
    ensures
        s < now && now - s < d ==> 0 <= (now - s) * (RATIO_ONE as int) / d < RATIO_ONE as int,
{
    let one = RATIO_ONE as int;
    if s < now && now - s < d {
        let e = now - s;
        assert(e * one < d * one) by (nonlinear_arith)
            requires
                e < d,
                one > 0,
        ;
        assert(e * one / d < one) by (nonlinear_arith)
            requires
                e * one < d * one,
                d >= 1,
        ;
        assert(e * one / d >= 0) by (nonlinear_arith)
            requires
                e >= 0,
                one >= 0,
                d >= 1,
        ;
    }
}

impl Default for AnimationRegulator {
    /// A regulator with no timers: every identifier reads fully elapsed.
    fn default() -> (reg: AnimationRegulator)
        ensures
            reg.wf(),
            forall|id: u16| !reg.has_timer(id),
    {
        AnimationRegulator { entries: Vec::new() }
    }
}

} // verus!
