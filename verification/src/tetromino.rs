//! Piece kinds, rotation states, the hand-tuned geometry table, and the
//! moving piece instance with its unconditional rotate/translate operations.

use vstd::prelude::*;

use crate::data::Vec2;

verus! {

/// The seven piece kinds.
#[derive(Clone, Copy, Debug, PartialEq, Eq, Structural)]
pub enum TType {
    I,
    O,
    T,
    L,
    S,
    Z,
    J,
}

/// The four orientations, arranged in a cycle.
#[derive(Clone, Copy, Debug, PartialEq, Eq, Structural)]
pub enum Rotation {
    State1,
    State2,
    State3,
    State4,
}

/// One step forward in the rotation cycle.
pub open spec fn rot_next(r: Rotation) -> Rotation {
    match r {
        Rotation::State1 => Rotation::State2,
        Rotation::State2 => Rotation::State3,
        Rotation::State3 => Rotation::State4,
        Rotation::State4 => Rotation::State1,
    }
}

/// One step backward in the rotation cycle.
pub open spec fn rot_prev(r: Rotation) -> Rotation {
    match r {
        Rotation::State1 => Rotation::State4,
        Rotation::State2 => Rotation::State1,
        Rotation::State3 => Rotation::State2,
        Rotation::State4 => Rotation::State3,
    }
}

impl Rotation {
    pub fn next(&self) -> (r: Rotation)
        ensures
            r == rot_next(*self),
    {
        match self {
            Rotation::State1 => Rotation::State2,
            Rotation::State2 => Rotation::State3,
            Rotation::State3 => Rotation::State4,
            Rotation::State4 => Rotation::State1,
        }
    }

    pub fn prev(&self) -> (r: Rotation)
        ensures
            r == rot_prev(*self),
    {
        match self {
            Rotation::State1 => Rotation::State4,
            Rotation::State2 => Rotation::State1,
            Rotation::State3 => Rotation::State2,
            Rotation::State4 => Rotation::State3,
        }
    }
}

impl Default for Rotation {
    fn default() -> (r: Rotation)
        ensures
            r == Rotation::State1,
    {
        Rotation::State1
    }
}

/// The geometry table: the four (row, column) cell offsets occupied by a
/// piece of kind `t` in orientation `r`, relative to the piece's origin.
/// The offsets are hand-tuned per kind and are not derived from rotation
/// arithmetic.
#[verifier::opaque]
pub open spec fn base_cells(t: TType, r: Rotation) -> Seq<(int, int)> {
    match (t, r) {
        (TType::I, Rotation::State1) => seq![(1int, 0int), (1int, 1int), (1int, 2int), (1int, 3int)],
        (TType::I, Rotation::State2) => seq![(0int, 2int), (1int, 2int), (2int, 2int), (3int, 2int)],
        (TType::I, Rotation::State3) => seq![(2int, 0int), (2int, 1int), (2int, 2int), (2int, 3int)],
        (TType::I, Rotation::State4) => seq![(0int, 1int), (1int, 1int), (2int, 1int), (3int, 1int)],
        (TType::O, Rotation::State1) => seq![(0int, 0int), (0int, 1int), (1int, 0int), (1int, 1int)],
        (TType::O, Rotation::State2) => seq![(0int, 0int), (0int, 1int), (1int, 0int), (1int, 1int)],
        (TType::O, Rotation::State3) => seq![(0int, 0int), (0int, 1int), (1int, 0int), (1int, 1int)],
        (TType::O, Rotation::State4) => seq![(0int, 0int), (0int, 1int), (1int, 0int), (1int, 1int)],
        (TType::T, Rotation::State1) => seq![(0int, 1int), (1int, 0int), (1int, 1int), (1int, 2int)],
        (TType::T, Rotation::State2) => seq![(0int, 1int), (1int, 1int), (1int, 2int), (2int, 1int)],
        (TType::T, Rotation::State3) => seq![(1int, 0int), (1int, 1int), (1int, 2int), (2int, 1int)],
        (TType::T, Rotation::State4) => seq![(0int, 1int), (1int, 0int), (1int, 1int), (2int, 1int)],
        (TType::L, Rotation::State1) => seq![(0int, 2int), (1int, 0int), (1int, 1int), (1int, 2int)],
        (TType::L, Rotation::State2) => seq![(0int, 1int), (1int, 1int), (2int, 1int), (2int, 2int)],
        (TType::L, Rotation::State3) => seq![(1int, 0int), (1int, 1int), (1int, 2int), (2int, 0int)],
        (TType::L, Rotation::State4) => seq![(0int, 0int), (0int, 1int), (1int, 1int), (2int, 1int)],
        (TType::S, Rotation::State1) => seq![(0int, 1int), (0int, 2int), (1int, 0int), (1int, 1int)],
        (TType::S, Rotation::State2) => seq![(0int, 1int), (1int, 1int), (1int, 2int), (2int, 2int)],
        (TType::S, Rotation::State3) => seq![(1int, 1int), (1int, 2int), (2int, 0int), (2int, 1int)],
        (TType::S, Rotation::State4) => seq![(0int, 0int), (1int, 0int), (1int, 1int), (2int, 1int)],
        (TType::Z, Rotation::State1) => seq![(0int, 0int), (0int, 1int), (1int, 1int), (1int, 2int)],
        (TType::Z, Rotation::State2) => seq![(0int, 2int), (1int, 1int), (1int, 2int), (2int, 1int)],
        (TType::Z, Rotation::State3) => seq![(1int, 0int), (1int, 1int), (2int, 1int), (2int, 2int)],
        (TType::Z, Rotation::State4) => seq![(0int, 1int), (1int, 0int), (1int, 1int), (2int, 0int)],
        (TType::J, Rotation::State1) => seq![(0int, 0int), (1int, 0int), (1int, 1int), (1int, 2int)],
        (TType::J, Rotation::State2) => seq![(0int, 1int), (0int, 2int), (1int, 1int), (2int, 1int)],
        (TType::J, Rotation::State3) => seq![(1int, 0int), (1int, 1int), (1int, 2int), (2int, 2int)],
        (TType::J, Rotation::State4) => seq![(0int, 1int), (1int, 1int), (2int, 0int), (2int, 1int)],
    }
}

/// Every entry of the geometry table lists exactly 4 distinct cells, each
/// within the 4-by-4 box at the piece's origin.
pub proof fn lemma_geometry_four_distinct(t: TType, r: Rotation)
    ensures
        base_cells(t, r).len() == 4,
        forall|i: int, j: int|
            0 <= i < j < 4 ==> base_cells(t, r)[i] != base_cells(t, r)[j],
        forall|i: int|
            0 <= i < 4 ==> {
                &&& 0 <= #[trigger] base_cells(t, r)[i].0 <= 3
                &&& 0 <= base_cells(t, r)[i].1 <= 3
            },
{
    reveal(base_cells);
    match (t, r) {
        (TType::I, Rotation::State1) => {},
        (TType::I, Rotation::State2) => {},
        (TType::I, Rotation::State3) => {},
        (TType::I, Rotation::State4) => {},
        (TType::O, Rotation::State1) => {},
        (TType::O, Rotation::State2) => {},
        (TType::O, Rotation::State3) => {},
        (TType::O, Rotation::State4) => {},
        (TType::T, Rotation::State1) => {},
        (TType::T, Rotation::State2) => {},
        (TType::T, Rotation::State3) => {},
        (TType::T, Rotation::State4) => {},
        (TType::L, Rotation::State1) => {},
        (TType::L, Rotation::State2) => {},
        (TType::L, Rotation::State3) => {},
        (TType::L, Rotation::State4) => {},
        (TType::S, Rotation::State1) => {},
        (TType::S, Rotation::State2) => {},
        (TType::S, Rotation::State3) => {},
        (TType::S, Rotation::State4) => {},
        (TType::Z, Rotation::State1) => {},
        (TType::Z, Rotation::State2) => {},
        (TType::Z, Rotation::State3) => {},
        (TType::Z, Rotation::State4) => {},
        (TType::J, Rotation::State1) => {},
        (TType::J, Rotation::State2) => {},
        (TType::J, Rotation::State3) => {},
        (TType::J, Rotation::State4) => {},
    }
}

/// The rotation cycle has period 4 and `prev` is the exact inverse of `next`.
pub proof fn lemma_rotation_cycle(r: Rotation)
    ensures
        rot_next(rot_next(rot_next(rot_next(r)))) == r,
        rot_prev(rot_next(r)) == r,
        rot_next(rot_prev(r)) == r,
{
}

/// A moving piece instance: its kind is fixed at construction; orientation
/// and offset change as the player acts.
#[derive(Clone, Copy, Debug, PartialEq, Eq, Structural)]
pub struct Tetromino {
    pub _type: TType,
    pub rotation: Rotation,
    pub offset: Vec2,
}

/// The spawn offset centers the piece on the board; the I and O kinds need
/// an adjustment of their own.
pub open spec fn spawn_offset(t: TType) -> Vec2 {
    match t {
        TType::I => (Vec2 { row: -1i32, col: 3 }),
        TType::O => (Vec2 { row: 0, col: 4 }),
        _ => (Vec2 { row: 0, col: 3 }),
    }
}

/// A freshly spawned piece of kind `t`: first orientation, spawn offset.
pub open spec fn spawned(t: TType) -> Tetromino {
    Tetromino { _type: t, rotation: Rotation::State1, offset: spawn_offset(t) }
}

impl Tetromino {
    /// The offset stays within a small window around the board, so that
    /// translating cell offsets never overflows.
    pub open spec fn wf(&self) -> bool {
        &&& -8 <= self.offset.row <= 40
        &&& -8 <= self.offset.col <= 40
    }

    /// The four absolute cells the piece occupies: the geometry-table entry
    /// translated by the piece's offset.
    pub open spec fn cells(&self) -> Seq<(int, int)> {
        Seq::new(
            4,
            |i: int|
                (
                    base_cells(self._type, self.rotation)[i].0 + self.offset.row,
                    base_cells(self._type, self.rotation)[i].1 + self.offset.col,
                ),
        )
    }

    pub fn new(_type: TType) -> (t: Tetromino)
        ensures
            t == spawned(_type),
            t.wf(),
    {
        let offset = match _type {
            TType::I => Vec2::new(-1, 3),
            TType::O => Vec2::new(0, 4),
            _ => Vec2::new(0, 3),
        };
        Tetromino { _type, rotation: Rotation::State1, offset }
    }

    /// The four occupied cells, translated by the current offset.
    pub fn get_curr_positions(&self) -> (v: Vec<Vec2>)
        requires
            self.wf(),
        ensures
            v@.len() == 4,
            forall|i: int|
                0 <= i < 4 ==> {
                    &&& v@[i].row == self.cells()[i].0
                    &&& v@[i].col == self.cells()[i].1
                },
    {
        proof {
            lemma_geometry_four_distinct(self._type, self.rotation);
        }
        let base = base_positions(self._type, self.rotation);
        let mut v: Vec<Vec2> = Vec::new();
        let mut i: usize = 0;
        while i < 4
            invariant
                self.wf(),
                base@.len() == 4,
                forall|k: int|
                    0 <= k < 4 ==> {
                        &&& base@[k].row == base_cells(self._type, self.rotation)[k].0
                        &&& base@[k].col == base_cells(self._type, self.rotation)[k].1
                        &&& 0 <= base@[k].row <= 3
                        &&& 0 <= base@[k].col <= 3
                    },
                i <= 4,
                v@.len() == i,
                forall|k: int|
                    0 <= k < i ==> {
                        &&& v@[k].row == self.cells()[k].0
                        &&& v@[k].col == self.cells()[k].1
                    },
            decreases 4 - i,
        {
            let cell = Vec2::new(base[i].row + self.offset.row, base[i].col + self.offset.col);
            v.push(cell);
            i = i + 1;
        }
        v
    }

    /// Advances the orientation one step; legality is the caller's concern.
    pub fn rotate(&mut self)
        ensures
            final(self)._type == old(self)._type,
            final(self).offset == old(self).offset,
            final(self).rotation == rot_next(old(self).rotation),
    {
        self.rotation = self.rotation.next();
    }

    /// Retreats the orientation one step; the exact inverse of `rotate`.
    pub fn undo_rotate(&mut self)
        ensures
            final(self)._type == old(self)._type,
            final(self).offset == old(self).offset,
            final(self).rotation == rot_prev(old(self).rotation),
    {
        self.rotation = self.rotation.prev();
    }

    /// Translates the piece by `vec`; legality is the caller's concern.
    pub fn move_pos(&mut self, vec: Vec2)
        requires
            i32::MIN <= old(self).offset.row + vec.row <= i32::MAX,
            i32::MIN <= old(self).offset.col + vec.col <= i32::MAX,
        ensures
            final(self)._type == old(self)._type,
            final(self).rotation == old(self).rotation,
            final(self).offset.row == old(self).offset.row + vec.row,
            final(self).offset.col == old(self).offset.col + vec.col,
    {
        self.offset = Vec2::new(self.offset.row + vec.row, self.offset.col + vec.col);
    }
}

/// The geometry-table entry for `(t, r)` as executable positions.
fn base_positions(t: TType, r: Rotation) -> (v: Vec<Vec2>)
    ensures
        v@.len() == 4,
        forall|i: int|
            0 <= i < 4 ==> {
                &&& v@[i].row == base_cells(t, r)[i].0
                &&& v@[i].col == base_cells(t, r)[i].1
            },
{
    proof {
        reveal(base_cells);
    }
    match (t, r) {
        (TType::I, Rotation::State1) => quad(1, 0, 1, 1, 1, 2, 1, 3),
        (TType::I, Rotation::State2) => quad(0, 2, 1, 2, 2, 2, 3, 2),
        (TType::I, Rotation::State3) => quad(2, 0, 2, 1, 2, 2, 2, 3),
        (TType::I, Rotation::State4) => quad(0, 1, 1, 1, 2, 1, 3, 1),
        (TType::O, Rotation::State1) => quad(0, 0, 0, 1, 1, 0, 1, 1),
        (TType::O, Rotation::State2) => quad(0, 0, 0, 1, 1, 0, 1, 1),
        (TType::O, Rotation::State3) => quad(0, 0, 0, 1, 1, 0, 1, 1),
        (TType::O, Rotation::State4) => quad(0, 0, 0, 1, 1, 0, 1, 1),
        (TType::T, Rotation::State1) => quad(0, 1, 1, 0, 1, 1, 1, 2),
        (TType::T, Rotation::State2) => quad(0, 1, 1, 1, 1, 2, 2, 1),
        (TType::T, Rotation::State3) => quad(1, 0, 1, 1, 1, 2, 2, 1),
        (TType::T, Rotation::State4) => quad(0, 1, 1, 0, 1, 1, 2, 1),
        (TType::L, Rotation::State1) => quad(0, 2, 1, 0, 1, 1, 1, 2),
        (TType::L, Rotation::State2) => quad(0, 1, 1, 1, 2, 1, 2, 2),
        (TType::L, Rotation::State3) => quad(1, 0, 1, 1, 1, 2, 2, 0),
        (TType::L, Rotation::State4) => quad(0, 0, 0, 1, 1, 1, 2, 1),
        (TType::S, Rotation::State1) => quad(0, 1, 0, 2, 1, 0, 1, 1),
        (TType::S, Rotation::State2) => quad(0, 1, 1, 1, 1, 2, 2, 2),
        (TType::S, Rotation::State3) => quad(1, 1, 1, 2, 2, 0, 2, 1),
        (TType::S, Rotation::State4) => quad(0, 0, 1, 0, 1, 1, 2, 1),
        (TType::Z, Rotation::State1) => quad(0, 0, 0, 1, 1, 1, 1, 2),
        (TType::Z, Rotation::State2) => quad(0, 2, 1, 1, 1, 2, 2, 1),
        (TType::Z, Rotation::State3) => quad(1, 0, 1, 1, 2, 1, 2, 2),
        (TType::Z, Rotation::State4) => quad(0, 1, 1, 0, 1, 1, 2, 0),
        (TType::J, Rotation::State1) => quad(0, 0, 1, 0, 1, 1, 1, 2),
        (TType::J, Rotation::State2) => quad(0, 1, 0, 2, 1, 1, 2, 1),
        (TType::J, Rotation::State3) => quad(1, 0, 1, 1, 1, 2, 2, 2),
        (TType::J, Rotation::State4) => quad(0, 1, 1, 1, 2, 0, 2, 1),
    }
}

/// Builds the four-cell list for one geometry-table entry.
fn quad(r0: i32, c0: i32, r1: i32, c1: i32, r2: i32, c2: i32, r3: i32, c3: i32) -> (v: Vec<Vec2>)
    ensures
        v@.len() == 4,
        v@[0].row == r0 && v@[0].col == c0,
        v@[1].row == r1 && v@[1].col == c1,
        v@[2].row == r2 && v@[2].col == c2,
        v@[3].row == r3 && v@[3].col == c3,
{
    let mut v: Vec<Vec2> = Vec::new();
    v.push(Vec2::new(r0, c0));
    v.push(Vec2::new(r1, c1));
    v.push(Vec2::new(r2, c2));
    v.push(Vec2::new(r3, c3));
    v
}

} // verus!
