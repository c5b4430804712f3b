//! The board of locked cells: bounds and emptiness queries, locking, the
//! atomic line-clear pass, and the retained collapsing-row records that feed
//! the collapse animation.

use vstd::prelude::*;
use vstd::pervasive::VecAdditionalExecFns;

use crate::animator::AnimationRegulator;
use crate::constants::{NUM_COLS, NUM_ROWS, RATIO_ONE, ROW_DISSAPEAR_ANIM_DURATION};
use crate::data::Vec2;
use crate::tetromino::TType;

verus! {

/// A removed, completed row retained temporarily for its outward collapse
/// animation: the minted animation identifier, the row's index at the moment
/// of removal, and the row's captured cell contents.
pub struct CollapsedRow {
    pub id: u16,
    pub orig_row: usize,
    pub cells: Vec<Option<TType>>,
}

/// The fixed-size board: each cell is empty or bears the kind that locked
/// into it. `collapsed` lists the rows currently animating their removal;
/// `next_anim_id` is the monotonic counter their animation identifiers are
/// minted from.
pub struct Grid {
    pub values: Vec<Vec<Option<TType>>>,
    pub collapsed: Vec<CollapsedRow>,
    pub next_anim_id: u16,
}

/// A row with every cell empty.
pub open spec fn empty_row_seq() -> Seq<Option<TType>> {
    Seq::new(NUM_COLS as nat, |i: int| None::<TType>)
}

/// A row is complete when every cell is occupied.
pub open spec fn row_complete(row: Seq<Option<TType>>) -> bool {
    forall|j: int| 0 <= j < row.len() ==> row[j] is Some
}

/// The rows of `s` that are not complete, in their original order.
pub open spec fn incomplete_rows(s: Seq<Seq<Option<TType>>>) -> Seq<Seq<Option<TType>>>
    decreases s.len(),
{
    if s.len() == 0 {
        Seq::empty()
    } else {
        incomplete_rows(s.drop_last()) + if row_complete(s.last()) {
            Seq::empty()
        } else {
            seq![s.last()]
        }
    }
}

/// The indices of the complete rows of `s`, in ascending order.
pub open spec fn complete_indices(s: Seq<Seq<Option<TType>>>) -> Seq<int>
    decreases s.len(),
{
    if s.len() == 0 {
        Seq::empty()
    } else {
        complete_indices(s.drop_last()) + if row_complete(s.last()) {
            seq![s.len() - 1]
        } else {
            Seq::empty()
        }
    }
}

/// The animation identifier minted one step after `id`: the counter wraps
/// past the reserved identifiers 0 and 1.
pub open spec fn id_after(id: u16) -> u16 {
    if id == u16::MAX {
        2
    } else {
        (id + 1) as u16
    }
}

/// The animation identifier minted `k` steps after `start`.
pub open spec fn nth_id(start: u16, k: nat) -> u16
    decreases k,
{
    if k == 0 {
        start
    } else {
        id_after(nth_id(start, (k - 1) as nat))
    }
}

/// Whether `j` is among the first `n` identifiers minted from `start`.
pub open spec fn minted_id(start: u16, n: nat, j: u16) -> bool {
    exists|k: nat| k < n && nth_id(start, k) == j
}

/// Every row removed is matched by an empty row inserted at the top: a clear
/// pass preserves the total row count.
pub proof fn lemma_clear_preserves_row_count(s: Seq<Seq<Option<TType>>>)
    ensures
        incomplete_rows(s).len() + complete_indices(s).len() == s.len(),
    decreases s.len(),
{
    if s.len() > 0 {
        lemma_clear_preserves_row_count(s.drop_last());
    }
}

/// No row kept by a clear pass is itself complete.
pub proof fn lemma_incomplete_rows_not_complete(s: Seq<Seq<Option<TType>>>)
    ensures
        forall|k: int|
            0 <= k < incomplete_rows(s).len() ==> !row_complete(#[trigger] incomplete_rows(s)[k]),
    decreases s.len(),
{
    if s.len() > 0 {
        lemma_incomplete_rows_not_complete(s.drop_last());
        assert forall|k: int|
            0 <= k < incomplete_rows(s).len() implies !row_complete(
            #[trigger] incomplete_rows(s)[k],
        ) by {
            if k < incomplete_rows(s.drop_last()).len() {
                assert(incomplete_rows(s)[k] == incomplete_rows(s.drop_last())[k]);
            } else {
                assert(incomplete_rows(s)[k] == s.last());
            }
        }
    }
}

/// The kept rows keep their width.
pub proof fn lemma_incomplete_rows_width(s: Seq<Seq<Option<TType>>>, w: nat)
    requires
        forall|m: int| 0 <= m < s.len() ==> (#[trigger] s[m]).len() == w,
    ensures
        forall|k: int|
            0 <= k < incomplete_rows(s).len() ==> (#[trigger] incomplete_rows(s)[k]).len() == w,
    decreases s.len(),
{
    if s.len() > 0 {
        lemma_incomplete_rows_width(s.drop_last(), w);
        assert forall|k: int|
            0 <= k < incomplete_rows(s).len() implies (#[trigger] incomplete_rows(s)[k]).len()
            == w by {
            if k < incomplete_rows(s.drop_last()).len() {
                assert(incomplete_rows(s)[k] == incomplete_rows(s.drop_last())[k]);
            } else {
                assert(incomplete_rows(s)[k] == s.last());
            }
        }
    }
}

/// How many entries of `rows` name an index below `n`.
pub open spec fn ind_count(rows: Seq<int>, n: int) -> int
    decreases rows.len(),
{
    if rows.len() == 0 {
        0
    } else {
        ind_count(rows.drop_last(), n) + if 0 <= rows.last() < n {
            1int
        } else {
            0int
        }
    }
}

proof fn lemma_ind_count_nonneg(rows: Seq<int>, n: int)
    ensures
        ind_count(rows, n) >= 0,
    decreases rows.len(),
{
    if rows.len() > 0 {
        lemma_ind_count_nonneg(rows.drop_last(), n);
    }
}

proof fn lemma_ind_count_le_len(rows: Seq<int>, n: int)
    ensures
        ind_count(rows, n) <= rows.len(),
    decreases rows.len(),
{
    if rows.len() > 0 {
        lemma_ind_count_le_len(rows.drop_last(), n);
    }
}

proof fn lemma_ind_count_monotone(rows: Seq<int>, n: int)
    ensures
        ind_count(rows, n - 1) <= ind_count(rows, n),
    decreases rows.len(),
{
    if rows.len() > 0 {
        lemma_ind_count_monotone(rows.drop_last(), n);
    }
}

proof fn lemma_ind_count_jump(rows: Seq<int>, n: int)
    requires
        n >= 1,
        rows.contains(n - 1),
    ensures
        ind_count(rows, n) >= ind_count(rows, n - 1) + 1,
    decreases rows.len(),
{
    if rows.last() == n - 1 {
        lemma_ind_count_monotone(rows.drop_last(), n);
    } else {
        assert(rows.drop_last().contains(n - 1)) by {
            let k = choose|k: int| 0 <= k < rows.len() && rows[k] == n - 1;
            assert(rows.drop_last()[k] == n - 1);
        }
        lemma_ind_count_jump(rows.drop_last(), n);
    }
}

/// A board without complete rows gains complete rows only in the rows that
/// were written: their number bounds the clear count.
pub proof fn lemma_complete_count_bound(
    s: Seq<Seq<Option<TType>>>,
    s2: Seq<Seq<Option<TType>>>,
    rows: Seq<int>,
)
    requires
        s.len() == s2.len(),
        forall|i: int| 0 <= i < s.len() ==> !row_complete(#[trigger] s[i]),
        forall|i: int| 0 <= i < s.len() && !rows.contains(i) ==> s2[i] == s[i],
    ensures
        complete_indices(s2).len() <= rows.len(),
{
    lemma_complete_count_bound_ind(s, s2, rows);
    lemma_ind_count_le_len(rows, s2.len() as int);
}

proof fn lemma_complete_count_bound_ind(
    s: Seq<Seq<Option<TType>>>,
    s2: Seq<Seq<Option<TType>>>,
    rows: Seq<int>,
)
    requires
        s.len() == s2.len(),
        forall|i: int| 0 <= i < s.len() ==> !row_complete(#[trigger] s[i]),
        forall|i: int| 0 <= i < s.len() && !rows.contains(i) ==> s2[i] == s[i],
    ensures
        complete_indices(s2).len() <= ind_count(rows, s2.len() as int),
    decreases s2.len(),
{
    let n = s2.len() as int;
    if s2.len() > 0 {
        assert forall|i: int|
            0 <= i < s.drop_last().len() && !rows.contains(i) implies s2.drop_last()[i]
            == s.drop_last()[i] by {
            assert(s2.drop_last()[i] == s2[i] && s.drop_last()[i] == s[i]);
        }
        assert forall|i: int|
            0 <= i < s.drop_last().len() implies !row_complete(#[trigger] s.drop_last()[i]) by {
            assert(s.drop_last()[i] == s[i]);
        }
        lemma_complete_count_bound_ind(s.drop_last(), s2.drop_last(), rows);
        assert(complete_indices(s2.drop_last()).len() <= ind_count(rows, n - 1));
        if row_complete(s2.last()) {
            assert(complete_indices(s2).len() == complete_indices(s2.drop_last()).len() + 1);
            assert(row_complete(s2[n - 1]));
            assert(!row_complete(s[n - 1]));
            assert(rows.contains(n - 1)) by {
                if !rows.contains(n - 1) {
                    assert(s2[n - 1] == s[n - 1]);
                }
            }
            lemma_ind_count_jump(rows, n);
        } else {
            assert(complete_indices(s2).len() == complete_indices(s2.drop_last()).len());
            lemma_ind_count_monotone(rows, n);
        }
    } else {
        assert(complete_indices(s2).len() == 0);
        lemma_ind_count_nonneg(rows, n);
    }
}

/// A board without complete rows passes a clear unchanged.
pub proof fn lemma_incomplete_rows_all(s: Seq<Seq<Option<TType>>>)
    requires
        complete_indices(s).len() == 0,
    ensures
        incomplete_rows(s) =~= s,
    decreases s.len(),
{
    if s.len() > 0 {
        assert(complete_indices(s.drop_last()).len() == 0);
        lemma_incomplete_rows_all(s.drop_last());
        assert(!row_complete(s.last()));
        assert(incomplete_rows(s) =~= s.drop_last() + seq![s.last()]);
    }
}

impl Grid {
    /// The board's rows as mathematical sequences.
    pub open spec fn grid_seq(&self) -> Seq<Seq<Option<TType>>> {
        self.values@.map_values(|r: Vec<Option<TType>>| r@)
    }

    /// Fixed dimensions, and a mint counter past the reserved identifiers.
    pub open spec fn wf(&self) -> bool {
        &&& self.values@.len() == NUM_ROWS
        &&& forall|i: int| 0 <= i < NUM_ROWS ==> (#[trigger] self.values@[i])@.len() == NUM_COLS
        &&& self.next_anim_id >= 2
    }

    /// The cell at `(r, c)`.
    pub open spec fn cell(&self, r: int, c: int) -> Option<TType> {
        self.values@[r]@[c]
    }

    /// True exactly when `pos` lies within the board.
    pub fn is_cell_contained(&self, pos: &Vec2) -> (b: bool)
        ensures
            b == (0 <= pos.row < NUM_ROWS && 0 <= pos.col < NUM_COLS),
    {
        pos.row >= 0 && pos.row < NUM_ROWS as i32 && pos.col >= 0 && pos.col < NUM_COLS as i32
    }

    /// True exactly when the (in-bounds) cell at `pos` holds no kind.
    pub fn is_empty(&self, pos: &Vec2) -> (b: bool)
        requires
            self.wf(),
            0 <= pos.row < NUM_ROWS,
            0 <= pos.col < NUM_COLS,
        ensures
            b == (self.cell(pos.row as int, pos.col as int) is None),
    {
        self.values[pos.row as usize][pos.col as usize].is_none()
    }

    /// Writes `col` into the (in-bounds) cell at `pos`; every other cell and
    /// the collapse records are untouched.
    pub fn set_type(&mut self, pos: &Vec2, col: TType)
        requires
            old(self).wf(),
            0 <= pos.row < NUM_ROWS,
            0 <= pos.col < NUM_COLS,
        ensures
            final(self).wf(),
            final(self).cell(pos.row as int, pos.col as int) == Some(col),
            forall|r: int, c: int|
                0 <= r < NUM_ROWS && 0 <= c < NUM_COLS && !(r == pos.row && c == pos.col)
                    ==> #[trigger] final(self).cell(r, c) == old(self).cell(r, c),
            final(self).collapsed@ == old(self).collapsed@,
            final(self).next_anim_id == old(self).next_anim_id,
    {
        let r = pos.row as usize;
        let c = pos.col as usize;
        let mut row = self.values.remove(r);
        row.set(c, Some(col));
        self.values.insert(r, row);
    }

    /// Scans the whole board once: every complete row is removed, an empty
    /// row enters at the top for each, and a collapse record with a freshly
    /// minted animation identifier is appended per cleared row, its timer
    /// started on the regulator. Returns how many rows were cleared; the
    /// whole pass is atomic and preserves the row count.
    pub fn check_complete(&mut self, reg: &mut AnimationRegulator, now: u64) -> (total: usize)
        requires
            old(self).wf(),
            old(reg).wf(),
        ensures
            final(self).wf(),
            final(reg).wf(),
            total == complete_indices(old(self).grid_seq()).len(),
            final(self).grid_seq() =~= Seq::new(total as nat, |i: int| empty_row_seq())
                + incomplete_rows(old(self).grid_seq()),
            final(self).next_anim_id == nth_id(old(self).next_anim_id, total as nat),
            final(self).collapsed@.len() == old(self).collapsed@.len() + total,
            forall|k: int|
                0 <= k < old(self).collapsed@.len() ==> #[trigger] final(self).collapsed@[k]
                    == old(self).collapsed@[k],
            forall|k: int|
                0 <= k < total ==> {
                    let e = #[trigger] final(self).collapsed@[old(self).collapsed@.len() + k];
                    &&& e.id == nth_id(old(self).next_anim_id, k as nat)
                    &&& e.orig_row == complete_indices(old(self).grid_seq())[k]
                    &&& e.cells@ == old(self).grid_seq()[complete_indices(
                        old(self).grid_seq(),
                    )[k]]
                },
            forall|k: nat|
                k < total ==> final(reg).has_timer(
                    #[trigger] nth_id(old(self).next_anim_id, k),
                ) && final(reg).timer(nth_id(old(self).next_anim_id, k)) == (
                    ROW_DISSAPEAR_ANIM_DURATION,
                    now,
                ),
            forall|j: u16|
                !minted_id(old(self).next_anim_id, total as nat, j)
                    ==> #[trigger] final(reg).has_timer(j) == old(reg).has_timer(j),
            forall|j: u16|
                !minted_id(old(self).next_anim_id, total as nat, j) && old(reg).has_timer(j)
                    ==> #[trigger] final(reg).timer(j) == old(reg).timer(j),
    {
        let ghost r_old = old(self).grid_seq();
        let ghost base = old(self).collapsed@.len() as int;
        let ghost start = old(self).next_anim_id;
        let mut kept: Vec<Vec<Option<TType>>> = Vec::new();
        let mut total: usize = 0;
        let mut i: usize = 0;
        proof {
            assert(self.values@.map_values(|r: Vec<Option<TType>>| r@) =~= r_old.skip(0));
        }
        while i < NUM_ROWS
            invariant
                old(self).wf(),
                old(reg).wf(),
                r_old == old(self).grid_seq(),
                base == old(self).collapsed@.len(),
                start == old(self).next_anim_id,
                i <= NUM_ROWS,
                r_old.len() == NUM_ROWS,
                self.values@.len() == NUM_ROWS - i,
                kept@.len() + total == i,
                forall|m: int| 0 <= m < NUM_ROWS ==> (#[trigger] r_old[m]).len() == NUM_COLS,
                self.values@.map_values(|r: Vec<Option<TType>>| r@) =~= r_old.skip(i as int),
                kept@.map_values(|r: Vec<Option<TType>>| r@) =~= incomplete_rows(
                    r_old.take(i as int),
                ),
                total == complete_indices(r_old.take(i as int)).len(),
                total <= i,
                self.next_anim_id == nth_id(start, total as nat),
                self.next_anim_id >= 2,
                self.collapsed@.len() == base + total,
                forall|k: int|
                    0 <= k < base ==> #[trigger] self.collapsed@[k] == old(self).collapsed@[k],
                forall|k: int|
                    0 <= k < total ==> {
                        let e = #[trigger] self.collapsed@[base + k];
                        &&& e.id == nth_id(start, k as nat)
                        &&& e.orig_row == complete_indices(r_old.take(i as int))[k]
                        &&& e.cells@ == r_old[complete_indices(r_old.take(i as int))[k]]
                    },
                reg.wf(),
                forall|k: nat|
                    k < total ==> reg.has_timer(#[trigger] nth_id(start, k)) && reg.timer(
                        nth_id(start, k),
                    ) == (ROW_DISSAPEAR_ANIM_DURATION, now),
                forall|j: u16|
                    !minted_id(start, total as nat, j) ==> #[trigger] reg.has_timer(j)
                        == old(reg).has_timer(j),
                forall|j: u16|
                    !minted_id(start, total as nat, j) && old(reg).has_timer(j)
                        ==> #[trigger] reg.timer(j) == old(reg).timer(j),
            decreases NUM_ROWS - i,
        {
            let ghost pre_vals = self.values@;
            let row = self.values.remove(0);
            proof {
                assert(row@ == r_old[i as int]) by {
                    assert(pre_vals.map_values(|r: Vec<Option<TType>>| r@)[0] == pre_vals[0]@);
                }
                assert(self.values@.map_values(|r: Vec<Option<TType>>| r@) =~= r_old.skip(
                    i as int + 1,
                )) by {
                    let f = |r: Vec<Option<TType>>| r@;
                    assert forall|m: int|
                        0 <= m < self.values@.len() implies #[trigger] self.values@.map_values(f)[m]
                        == r_old.skip(i as int + 1)[m] by {
                        assert(self.values@[m] == pre_vals[m + 1]);
                        assert(pre_vals.map_values(f)[m + 1] == pre_vals[m + 1]@);
                    }
                }
                assert(r_old.take(i as int + 1).drop_last() =~= r_old.take(i as int));
                assert(r_old.take(i as int + 1).last() == r_old[i as int]);
            }
            let is_full = row_full(&row);
            let ghost pre_collapsed = self.collapsed@;
            let ghost row_view = row@;
            if is_full {
                let id = self.next_anim_id;
                self.next_anim_id = if id == u16::MAX {
                    2
                } else {
                    id + 1
                };
                self.collapsed.push(CollapsedRow { id, orig_row: i, cells: row });
                reg.reset_animation(id, ROW_DISSAPEAR_ANIM_DURATION, now);
                total = total + 1;
                proof {
                    assert(self.next_anim_id == id_after(id));
                    assert(nth_id(start, total as nat) == id_after(
                        nth_id(start, (total - 1) as nat),
                    ));
                    assert(complete_indices(r_old.take(i as int + 1)) =~= complete_indices(
                        r_old.take(i as int),
                    ) + seq![i as int]);
                    assert(incomplete_rows(r_old.take(i as int + 1)) =~= incomplete_rows(
                        r_old.take(i as int),
                    ));
                    assert forall|j: u16|
                        !minted_id(start, total as nat, j) implies #[trigger] reg.has_timer(j)
                        == old(reg).has_timer(j) by {
                        assert(!minted_id(start, (total - 1) as nat, j));
                        assert(j != id) by {
                            assert(nth_id(start, (total - 1) as nat) == id);
                        }
                    }
                    assert forall|j: u16|
                        !minted_id(start, total as nat, j) && old(reg).has_timer(j)
                            implies #[trigger] reg.timer(j) == old(reg).timer(j) by {
                        assert(!minted_id(start, (total - 1) as nat, j));
                        assert(j != id) by {
                            assert(nth_id(start, (total - 1) as nat) == id);
                        }
                    }
                    assert forall|k: nat| k < total implies reg.has_timer(
                        #[trigger] nth_id(start, k),
                    ) && reg.timer(nth_id(start, k)) == (ROW_DISSAPEAR_ANIM_DURATION, now) by {
                        if k < total - 1 {
                            assert(minted_id(start, (total - 1) as nat, nth_id(start, k)) || reg
                                .has_timer(nth_id(start, k)));
                        } else {
                            assert(nth_id(start, k) == id);
                        }
                    }
                    let ci_new = complete_indices(r_old.take(i as int + 1));
                    let ci_old = complete_indices(r_old.take(i as int));
                    assert forall|k: int|
                        0 <= k < total implies {
                        let e = #[trigger] self.collapsed@[base + k];
                        &&& e.id == nth_id(start, k as nat)
                        &&& e.orig_row == ci_new[k]
                        &&& e.cells@ == r_old[ci_new[k]]
                    } by {
                        if k < total - 1 {
                            assert(self.collapsed@[base + k] == pre_collapsed[base + k]);
                            assert(ci_new[k] == ci_old[k]);
                        } else {
                            assert(base + k == pre_collapsed.len());
                            let e = self.collapsed@[base + k];
                            assert(e.id == id && e.orig_row == i && e.cells@ == row_view);
                            assert(ci_new[k] == i as int);
                        }
                    }
                }
            } else {
                kept.push(row);
                proof {
                    assert(incomplete_rows(r_old.take(i as int + 1)) =~= incomplete_rows(
                        r_old.take(i as int),
                    ) + seq![r_old[i as int]]);
                    assert(complete_indices(r_old.take(i as int + 1)) =~= complete_indices(
                        r_old.take(i as int),
                    ));
                    assert(kept@.map_values(|r: Vec<Option<TType>>| r@) =~= incomplete_rows(
                        r_old.take(i as int + 1),
                    )) by {
                        let f = |r: Vec<Option<TType>>| r@;
                        let prev = kept@.drop_last();
                        assert(kept@.map_values(f).drop_last() =~= prev.map_values(f));
                        assert(kept@.map_values(f).last() == row_view);
                    }
                }
            }
            i = i + 1;
        }
        proof {
            assert(r_old.take(NUM_ROWS as int) =~= r_old);
        }
        let mut rebuilt: Vec<Vec<Option<TType>>> = Vec::new();
        let mut k: usize = 0;
        while k < total
            invariant
                k <= total,
                rebuilt@.len() == k,
                forall|m: int| 0 <= m < k ==> (#[trigger] rebuilt@[m])@ =~= empty_row_seq(),
            decreases total - k,
        {
            rebuilt.push(empty_row());
            k = k + 1;
        }
        let ghost empties = rebuilt@;
        let ghost kept_view = kept@;
        rebuilt.append(&mut kept);
        self.values = rebuilt;
        proof {
            lemma_clear_preserves_row_count(r_old);
            lemma_incomplete_rows_width(r_old, NUM_COLS as nat);
            let f = |r: Vec<Option<TType>>| r@;
            let target = Seq::new(total as nat, |i: int| empty_row_seq()) + incomplete_rows(r_old);
            assert forall|m: int|
                0 <= m < self.values@.len() implies #[trigger] self.values@.map_values(f)[m]
                == target[m] by {
                if m < total {
                    assert(self.values@[m] == empties[m]);
                    assert(empties[m]@ =~= empty_row_seq());
                } else {
                    assert(self.values@[m] == kept_view[m - total]);
                    assert(kept_view.map_values(f)[m - total] == kept_view[m - total]@);
                }
            }
            assert(self.grid_seq() =~= target);
            assert(final(self).wf()) by {
                assert forall|m: int|
                    0 <= m < NUM_ROWS implies (#[trigger] self.values@[m])@.len() == NUM_COLS by {
                    assert(self.values@.map_values(f)[m] == target[m]);
                    assert(self.values@[m]@ == target[m]);
                }
            }
        }
        total
    }

    /// Reads the collapse progress of every retained record at clock `now`,
    /// drops the records whose animation has finished (releasing their
    /// timers), and returns the progress of the records that remain, in
    /// order: the `m`-th ratio belongs to the `m`-th remaining record.
    pub fn draw_row_collapse_animation(&mut self, reg: &mut AnimationRegulator, now: u64) -> (ratios:
        Vec<u32>)
        requires
            old(self).wf(),
            old(reg).wf(),
        ensures
            final(self).wf(),
            final(reg).wf(),
            final(self).values@ == old(self).values@,
            final(self).next_anim_id == old(self).next_anim_id,
            final(self).collapsed@ == kept_entries(old(self).collapsed@, *old(reg), now),
            ratios@.len() == final(self).collapsed@.len(),
            forall|m: int|
                0 <= m < ratios@.len() ==> #[trigger] ratios@[m] == old(reg).ratio_at(
                    final(self).collapsed@[m].id,
                    now,
                ) && ratios@[m] < RATIO_ONE,
            forall|j: u16|
                pruned_id(old(self).collapsed@, *old(reg), now, j) ==> !final(reg).has_timer(j),
            forall|j: u16|
                !pruned_id(old(self).collapsed@, *old(reg), now, j)
                    ==> #[trigger] final(reg).has_timer(j) == old(reg).has_timer(j),
            forall|j: u16|
                !pruned_id(old(self).collapsed@, *old(reg), now, j) && old(reg).has_timer(j)
                    ==> #[trigger] final(reg).timer(j) == old(reg).timer(j),
    {
        let ghost reg0 = *old(reg);
        let ghost entries0 = old(self).collapsed@;
        let n = self.collapsed.len();
        let mut all: Vec<u32> = Vec::new();
        let mut k: usize = 0;
        while k < n
            invariant
                reg.wf(),
                *reg == reg0,
                self.collapsed@ == entries0,
                n == entries0.len(),
                k <= n,
                all@.len() == k,
                forall|m: int|
                    0 <= m < k ==> #[trigger] all@[m] == reg0.ratio_at(entries0[m].id, now)
                        && all@[m] <= RATIO_ONE,
            decreases n - k,
        {
            let r = reg.animation_completed_ratio(self.collapsed[k].id, now);
            all.push(r);
            k = k + 1;
        }
        let mut kept: Vec<CollapsedRow> = Vec::new();
        let mut ratios: Vec<u32> = Vec::new();
        let mut k: usize = 0;
        while k < n
            invariant
                reg0.wf(),
                reg.wf(),
                entries0 == old(self).collapsed@,
                reg0 == *old(reg),
                self.values@ == old(self).values@,
                self.next_anim_id == old(self).next_anim_id,
                n == entries0.len(),
                k <= n,
                self.collapsed@ == entries0.skip(k as int),
                all@.len() == n,
                forall|m: int|
                    0 <= m < n ==> #[trigger] all@[m] == reg0.ratio_at(entries0[m].id, now)
                        && all@[m] <= RATIO_ONE,
                kept@ == kept_entries(entries0.take(k as int), reg0, now),
                ratios@.len() == kept@.len(),
                forall|m: int|
                    0 <= m < ratios@.len() ==> #[trigger] ratios@[m] == reg0.ratio_at(
                        kept@[m].id,
                        now,
                    ) && ratios@[m] < RATIO_ONE,
                forall|j: u16|
                    pruned_id(entries0.take(k as int), reg0, now, j) ==> !reg.has_timer(j),
                forall|j: u16|
                    !pruned_id(entries0.take(k as int), reg0, now, j) ==> #[trigger] reg.has_timer(
                        j,
                    ) == reg0.has_timer(j),
                forall|j: u16|
                    !pruned_id(entries0.take(k as int), reg0, now, j) && reg0.has_timer(j)
                        ==> #[trigger] reg.timer(j) == reg0.timer(j),
            decreases n - k,
        {
            let e = self.collapsed.remove(0);
            let ghost e_spec = entries0[k as int];
            proof {
                assert(entries0.skip(k as int)[0] == entries0[k as int]);
                assert(self.collapsed@ =~= entries0.skip(k as int + 1)) by {
                    assert(entries0.skip(k as int).remove(0) =~= entries0.skip(k as int + 1));
                }
                assert(entries0.take(k as int + 1).drop_last() =~= entries0.take(k as int));
                assert(entries0.take(k as int + 1).last() == entries0[k as int]);
            }
            let ghost pref = entries0.take(k as int + 1);
            let ghost cur = entries0.take(k as int);
            let ratio = all[k];
            if ratio >= RATIO_ONE {
                reg.remove_animation(e.id);
                proof {
                    assert(!keep_entry(e_spec, reg0, now));
                    assert(kept_entries(pref, reg0, now) =~= kept_entries(cur, reg0, now));
                    assert forall|j: u16|
                        !pruned_id(pref, reg0, now, j) implies #[trigger] reg.has_timer(j)
                        == reg0.has_timer(j) && (reg0.has_timer(j) ==> reg.timer(j) == reg0.timer(
                        j,
                    )) by {
                        assert(!pruned_id(cur, reg0, now, j)) by {
                            if pruned_id(cur, reg0, now, j) {
                                let m = choose|m: int|
                                    0 <= m < cur.len() && #[trigger] cur[m].id == j && !keep_entry(
                                        cur[m],
                                        reg0,
                                        now,
                                    );
                                assert(pref[m] == cur[m]);
                            }
                        }
                        assert(j != e_spec.id) by {
                            assert(pref[k as int] == e_spec);
                        }
                    }
                    assert forall|j: u16|
                        pruned_id(pref, reg0, now, j) implies !reg.has_timer(j) by {
                        let m = choose|m: int|
                            0 <= m < pref.len() && #[trigger] pref[m].id == j && !keep_entry(
                                pref[m],
                                reg0,
                                now,
                            );
                        if m < k {
                            assert(cur[m] == pref[m]);
                            assert(pruned_id(cur, reg0, now, j));
                        } else {
                            assert(pref[m] == e_spec);
                            assert(j == e_spec.id);
                        }
                    }
                }
            } else {
                kept.push(e);
                ratios.push(ratio);
                proof {
                    assert(keep_entry(e_spec, reg0, now));
                    assert(kept_entries(pref, reg0, now) =~= kept_entries(cur, reg0, now)
                        + seq![e_spec]);
                    assert forall|j: u16|
                        pruned_id(pref, reg0, now, j) implies !reg.has_timer(j) by {
                        let m = choose|m: int|
                            0 <= m < pref.len() && #[trigger] pref[m].id == j && !keep_entry(
                                pref[m],
                                reg0,
                                now,
                            );
                        if m < k {
                            assert(cur[m] == pref[m]);
                            assert(pruned_id(cur, reg0, now, j));
                        } else {
                            assert(pref[m] == e_spec);
                        }
                    }
                    assert forall|j: u16|
                        !pruned_id(pref, reg0, now, j) implies #[trigger] reg.has_timer(j)
                        == reg0.has_timer(j) && (reg0.has_timer(j) ==> reg.timer(j) == reg0.timer(
                        j,
                    )) by {
                        assert(!pruned_id(cur, reg0, now, j)) by {
                            if pruned_id(cur, reg0, now, j) {
                                let m = choose|m: int|
                                    0 <= m < cur.len() && #[trigger] cur[m].id == j && !keep_entry(
                                        cur[m],
                                        reg0,
                                        now,
                                    );
                                assert(pref[m] == cur[m]);
                            }
                        }
                    }
                }
            }
            k = k + 1;
        }
        self.collapsed = kept;
        proof {
            assert(entries0.take(n as int) =~= entries0);
        }
        ratios
    }
}

impl Default for Grid {
    /// An empty board with no collapse records and the mint counter at the
    /// first unreserved identifier.
    fn default() -> (g: Grid)
        ensures
            g.wf(),
            g.grid_seq() =~= Seq::new(NUM_ROWS as nat, |i: int| empty_row_seq()),
            g.collapsed@.len() == 0,
            g.next_anim_id == 2,
    {
        let mut values: Vec<Vec<Option<TType>>> = Vec::new();
        let mut i: usize = 0;
        while i < NUM_ROWS
            invariant
                i <= NUM_ROWS,
                values@.len() == i,
                forall|m: int| 0 <= m < i ==> (#[trigger] values@[m])@ =~= empty_row_seq(),
            decreases NUM_ROWS - i,
        {
            values.push(empty_row());
            i = i + 1;
        }
        let g = Grid { values, collapsed: Vec::new(), next_anim_id: 2 };
        proof {
            let f = |r: Vec<Option<TType>>| r@;
            assert forall|m: int|
                0 <= m < NUM_ROWS implies #[trigger] g.grid_seq()[m] == Seq::new(
                NUM_ROWS as nat,
                |i: int| empty_row_seq(),
            )[m] by {
                assert(g.values@.map_values(f)[m] == g.values@[m]@);
            }
        }
        g
    }
}

/// A collapse record stays only while its animation is still running.
pub open spec fn keep_entry(e: CollapsedRow, reg: AnimationRegulator, now: u64) -> bool {
    reg.ratio_at(e.id, now) < RATIO_ONE
}

/// The records of `s` whose animation is still running at `now`, in order.
pub open spec fn kept_entries(s: Seq<CollapsedRow>, reg: AnimationRegulator, now: u64) -> Seq<
    CollapsedRow,
>
    decreases s.len(),
{
    if s.len() == 0 {
        Seq::empty()
    } else {
        kept_entries(s.drop_last(), reg, now) + if keep_entry(s.last(), reg, now) {
            seq![s.last()]
        } else {
            Seq::empty()
        }
    }
}

/// Whether `j` is the identifier of a record of `s` whose animation has
/// finished at `now`.
pub open spec fn pruned_id(s: Seq<CollapsedRow>, reg: AnimationRegulator, now: u64, j: u16) -> bool {
    exists|k: int| 0 <= k < s.len() && s[k].id == j && !keep_entry(s[k], reg, now)
}

/// After a clear pass no row of the board is complete: the inserted rows are
/// empty and the kept rows were incomplete.
pub proof fn lemma_clear_leaves_no_complete_row(
    s: Seq<Seq<Option<TType>>>,
    g: Seq<Seq<Option<TType>>>,
    n: nat,
)
    requires
        g == Seq::new(n, |i: int| empty_row_seq()) + incomplete_rows(s),
    ensures
        forall|m: int| 0 <= m < g.len() ==> !row_complete(#[trigger] g[m]),
{
    lemma_incomplete_rows_not_complete(s);
    assert(!row_complete(empty_row_seq())) by {
        assert(empty_row_seq()[0] is None);
    }
    assert forall|m: int| 0 <= m < g.len() implies !row_complete(#[trigger] g[m]) by {
        if m < n {
            assert(g[m] == empty_row_seq());
        } else {
            assert(g[m] == incomplete_rows(s)[m - n]);
        }
    }
}

/// Builds a row with every cell empty.
fn empty_row() -> (r: Vec<Option<TType>>)
    ensures
        r@ =~= empty_row_seq(),
{
    let mut r: Vec<Option<TType>> = Vec::new();
    let mut j: usize = 0;
    while j < NUM_COLS
        invariant
            j <= NUM_COLS,
            r@.len() == j,
            forall|m: int| 0 <= m < j ==> r@[m] is None,
        decreases NUM_COLS - j,
    {
        r.push(None);
        j = j + 1;
    }
    r
}

/// True exactly when every cell of `row` is occupied.
fn row_full(row: &Vec<Option<TType>>) -> (b: bool)
    ensures
        b == row_complete(row@),
{
    let mut j: usize = 0;
    while j < row.len()
        invariant
            j <= row@.len(),
            forall|m: int| 0 <= m < j ==> row@[m] is Some,
        decreases row@.len() - j,
    {
        if row[j].is_none() {
            return false;
        }
        j = j + 1;
    }
    true
}

} // verus!
