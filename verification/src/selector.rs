//! The piece selector: a without-replacement bag of the seven kinds, drawn
//! uniformly at random, refilled exactly when it runs empty; and the three
//! live piece instances (current, landing preview, next).

use vstd::prelude::*;
use vstd::multiset::Multiset;

use crate::tetromino::{spawned, TType, Tetromino};

verus! {

/// The seven kinds in the order a refill pushes them.
pub open spec fn all_kinds_seq() -> Seq<TType> {
    seq![TType::I, TType::O, TType::T, TType::L, TType::S, TType::Z, TType::J]
}

/// One of each of the seven kinds: the content of a freshly refilled bag.
pub open spec fn full_bag() -> Multiset<TType> {
    all_kinds_seq().to_multiset()
}

/// What one draw does to the bag: from an empty bag it first refills with
/// all seven kinds, then removes the drawn kind; otherwise it removes one
/// occurrence of the drawn kind, which the bag held.
pub open spec fn draw_transition(before: Seq<TType>, after: Seq<TType>, t: TType) -> bool {
    if before.len() == 0 {
        &&& after.to_multiset() == full_bag().remove(t)
        &&& full_bag().count(t) >= 1
        &&& after.len() == 6
    } else {
        &&& before.to_multiset().count(t) >= 1
        &&& after.to_multiset() == before.to_multiset().remove(t)
        &&& after.len() == before.len() - 1
    }
}

/// A full bag holds each kind exactly once.
pub proof fn lemma_full_bag_counts(t: TType)
    ensures
        full_bag().count(t) == 1,
        full_bag().len() == 7,
{
    broadcast use vstd::seq_lib::group_to_multiset_ensures;

    let s0 = Seq::<TType>::empty();
    let s1 = s0.push(TType::I);
    let s2 = s1.push(TType::O);
    let s3 = s2.push(TType::T);
    let s4 = s3.push(TType::L);
    let s5 = s4.push(TType::S);
    let s6 = s5.push(TType::Z);
    let s7 = s6.push(TType::J);
    assert(all_kinds_seq() =~= s7);
    assert(s0.to_multiset() =~= Multiset::<TType>::empty()) by {
        assert(s0.to_multiset().len() == 0);
    }
    assert(s7.to_multiset() =~= s6.to_multiset().insert(TType::J));
    assert(s6.to_multiset() =~= s5.to_multiset().insert(TType::Z));
    assert(s5.to_multiset() =~= s4.to_multiset().insert(TType::S));
    assert(s4.to_multiset() =~= s3.to_multiset().insert(TType::L));
    assert(s3.to_multiset() =~= s2.to_multiset().insert(TType::T));
    assert(s2.to_multiset() =~= s1.to_multiset().insert(TType::O));
    assert(s1.to_multiset() =~= s0.to_multiset().insert(TType::I));
}

/// Bag-randomizer fairness: seven successive draws that start from a full
/// bag, each removing a kind the bag then held, yield each of the seven
/// kinds exactly once and leave the bag empty.
pub proof fn lemma_bag_fairness(draws: Seq<TType>, bags: Seq<Multiset<TType>>)
    requires
        draws.len() == 7,
        bags.len() == 8,
        bags[0] == full_bag(),
        forall|i: int|
            0 <= i < 7 ==> (#[trigger] bags[i]).count(draws[i]) >= 1 && bags[i + 1] == bags[
                i
            ].remove(draws[i]),
    ensures
        draws.to_multiset() == full_bag(),
        forall|t: TType| draws.to_multiset().count(t) == 1,
        bags[7].len() == 0,
{
    broadcast use vstd::seq_lib::group_to_multiset_ensures;

    lemma_draw_chain(draws, bags, 7);
    assert(draws.take(7) =~= draws);
    assert(bags[7].len() == 0) by {
        lemma_full_bag_counts(TType::I);
        assert(draws.take(7).to_multiset().len() == 7);
        assert(draws.take(7).to_multiset().add(bags[7]).len() == full_bag().len());
    }
    assert(draws.to_multiset() =~= full_bag()) by {
        assert(draws.to_multiset().add(bags[7]) == full_bag());
        assert(bags[7] =~= Multiset::<TType>::empty());
    }
    assert forall|t: TType| draws.to_multiset().count(t) == 1 by {
        lemma_full_bag_counts(t);
    }
}

/// After `i` draws, the kinds drawn so far and the bag together still make
/// up the original full bag.
proof fn lemma_draw_chain(draws: Seq<TType>, bags: Seq<Multiset<TType>>, i: int)
    requires
        0 <= i <= 7,
        draws.len() == 7,
        bags.len() == 8,
        forall|k: int|
            0 <= k < 7 ==> (#[trigger] bags[k]).count(draws[k]) >= 1 && bags[k + 1] == bags[
                k
            ].remove(draws[k]),
    ensures
        draws.take(i).to_multiset().add(bags[i]) == bags[0],
    decreases i,
{
    broadcast use vstd::seq_lib::group_to_multiset_ensures;

    if i == 0 {
        assert(draws.take(0) =~= Seq::<TType>::empty());
        assert(draws.take(0).to_multiset().len() == 0);
        assert(draws.take(0).to_multiset() =~= Multiset::<TType>::empty());
        assert(draws.take(0).to_multiset().add(bags[0]) =~= bags[0]);
    } else {
        lemma_draw_chain(draws, bags, i - 1);
        let d = draws[i - 1];
        assert(draws.take(i) =~= draws.take(i - 1).push(d));
        assert(draws.take(i).to_multiset() =~= draws.take(i - 1).to_multiset().insert(d));
        assert(draws.take(i).to_multiset().add(bags[i]) =~= draws.take(i - 1).to_multiset().add(
            bags[i - 1],
        )) by {
            assert(bags[i] == bags[i - 1].remove(d));
            assert(bags[i - 1].count(d) >= 1);
        }
    }
}

/// The bag plus the three live piece instances. The preview piece mirrors
/// the current piece's kind and column, projected to its landing row.
pub struct Selector {
    pub choices: Vec<TType>,
    pub current: Tetromino,
    pub ghost_piece: Tetromino,
    pub next: Tetromino,
}

impl Selector {
    /// The bag never holds a kind more than once, so it holds at most the
    /// seven kinds.
    pub open spec fn bag_wf(&self) -> bool {
        &&& self.choices@.len() <= 7
        &&& forall|t: TType| self.choices@.to_multiset().count(t) <= 1
    }

    /// Refills the empty bag with one of each kind.
    pub fn reset(&mut self)
        requires
            old(self).choices@.len() == 0,
        ensures
            final(self).choices@ == all_kinds_seq(),
            final(self).choices@.to_multiset() == full_bag(),
            final(self).bag_wf(),
            final(self).current == old(self).current,
            final(self).ghost_piece == old(self).ghost_piece,
            final(self).next == old(self).next,
    {
        self.choices.push(TType::I);
        self.choices.push(TType::O);
        self.choices.push(TType::T);
        self.choices.push(TType::L);
        self.choices.push(TType::S);
        self.choices.push(TType::Z);
        self.choices.push(TType::J);
        proof {
            assert(old(self).choices@ =~= Seq::<TType>::empty());
            assert(self.choices@ =~= all_kinds_seq());
            assert forall|t: TType| self.choices@.to_multiset().count(t) <= 1 by {
                lemma_full_bag_counts(t);
            }
        }
    }

    /// Draws one kind uniformly at random without replacement, refilling the
    /// bag first exactly when it is empty.
    pub fn next(&mut self) -> (t: TType)
        requires
            old(self).bag_wf(),
        ensures
            final(self).bag_wf(),
            draw_transition(old(self).choices@, final(self).choices@, t),
            final(self).current == old(self).current,
            final(self).ghost_piece == old(self).ghost_piece,
            final(self).next == old(self).next,
    {
        broadcast use vstd::seq_lib::group_to_multiset_ensures;

        if self.choices.len() == 0 {
            self.reset();
        }
        let chosen = rand_index(self.choices.len());
        let t = self.choices[chosen];
        self.choices.remove(chosen);
        proof {
            assert(self.choices@.to_multiset().count(t) >= 0);
            assert forall|k: TType| self.choices@.to_multiset().count(k) <= 1 by {
                if old(self).choices@.len() == 0 {
                    lemma_full_bag_counts(k);
                }
            }
        }
        t
    }

    /// Rotates the piece pipeline after a lock: the previewed next piece
    /// becomes current (and its landing preview), and a fresh next piece is
    /// drawn from the bag.
    pub fn block_locked(&mut self)
        requires
            old(self).bag_wf(),
        ensures
            final(self).bag_wf(),
            final(self).current == old(self).next,
            final(self).ghost_piece == old(self).next,
            exists|t: TType|
                #[trigger] draw_transition(old(self).choices@, final(self).choices@, t)
                    && final(self).next == spawned(t),
            final(self).next.wf(),
    {
        self.ghost_piece = self.next;
        self.current = self.next;
        let drawn = self.next();
        self.next = Tetromino::new(drawn);
        proof {
            assert(draw_transition(old(self).choices@, self.choices@, drawn) && self.next
                == spawned(drawn));
        }
    }
}

impl Default for Selector {
    /// A fresh selector: a full bag less the two kinds drawn for the current
    /// and next pieces, which spawn at their starting offsets.
    fn default() -> (s: Selector)
        ensures
            s.bag_wf(),
            s.choices@.len() == 5,
            exists|t1: TType, t2: TType|
                #[trigger] s.current == spawned(t1) && #[trigger] s.next == spawned(t2)
                    && s.choices@.to_multiset() == full_bag().remove(t1).remove(t2),
            s.ghost_piece == s.current,
            s.current.wf(),
            s.next.wf(),
    {
        let mut s = Selector {
            choices: Vec::new(),
            current: Tetromino::new(TType::I),
            ghost_piece: Tetromino::new(TType::I),
            next: Tetromino::new(TType::I),
        };
        proof {
            broadcast use vstd::seq_lib::group_to_multiset_ensures;

            assert forall|t: TType| s.choices@.to_multiset().count(t) <= 1 by {
                assert(!s.choices@.contains(t));
            }
        }
        let first = s.next();
        s.current = Tetromino::new(first);
        s.ghost_piece = s.current;
        let second = s.next();
        s.next = Tetromino::new(second);
        proof {
            assert(s.current == spawned(first) && s.next == spawned(second)
                && s.choices@.to_multiset() == full_bag().remove(first).remove(second));
        }
        s
    }
}

/// Relies on macroquad::rand::gen_range (quad-rand): for the integer types
/// it returns `low + floor((high - low) * r)` with `r` drawn in `[0, 1)`,
/// so with `low == 0` the result lies below `high`.
#[verifier::external_body]
fn rand_index(len: usize) -> (r: usize)
    requires
        1 <= len <= 100000,
    ensures
        r < len,
{
    macroquad::rand::gen_range(0, len)
}

} // verus!
